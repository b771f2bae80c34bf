use khimoo_portfolio::config::{AppConfig, NodeConfig};
use khimoo_portfolio::data::{
    ArticlesData, LinkType, ProcessedArticle, ProcessedLink, ProcessedMetadata,
};
use khimoo_portfolio::graph::{NodeContent, NodeId, NodeRegistry, NodeRegistryBuilder};
use khimoo_portfolio::articles::{ArticleProcessor, MetadataError, ProcessingError};
use khimoo_portfolio::ArticleMetadata;

type Registry = NodeRegistry<(i32, i32)>;

fn text(title: &str) -> NodeContent {
    NodeContent::Text(title.to_string())
}

fn author(name: &str) -> NodeContent {
    NodeContent::Author { name: name.to_string(), image_url: "me.png".to_string(), bio: None }
}

#[test]
fn registry_keeps_nodes_in_insertion_order_with_unique_ids() {
    let mut registry = Registry::new();
    assert_eq!(registry.node_count(), 0);
    assert_eq!(registry.node_config(), NodeConfig::new());
    assert!(!registry.connection_lines_visible());
    assert!(registry.add_node(NodeId(5), (1, 2), 30, text("five")));
    assert!(registry.add_node(NodeId(3), (3, 4), 50, text("three")));
    // An id that is taken stays as it is.
    assert!(!registry.add_node(NodeId(5), (9, 9), 70, text("again")));
    assert_eq!(registry.node_ids(), vec![NodeId(5), NodeId(3)]);
    assert_eq!(registry.find(NodeId(3)), Some(1));
    assert_eq!(registry.find(NodeId(4)), None);
    let five = registry.get(NodeId(5)).unwrap();
    assert_eq!(five.position, (1, 2));
    assert_eq!(five.radius, 30);
    assert_eq!(five.importance, None);
    assert_eq!(five.inbound_count, 0);
    assert_eq!(five.category, None);
    assert!(matches!(&five.content, NodeContent::Text(title) if title == "five"));
    assert!(registry.get(NodeId(4)).is_none());
    assert_eq!(registry.node_at(1).id, NodeId(3));
}

#[test]
fn radii_stay_within_the_configured_bounds() {
    let mut registry = Registry::new();
    registry.add_node(NodeId(1), (0, 0), 5, text("small"));
    registry.add_node(NodeId(2), (0, 0), 500, text("large"));
    registry.add_node(NodeId(3), (0, 0), 20, text("edge"));
    assert_eq!(registry.get_radius(NodeId(1)), Some(20));
    assert_eq!(registry.get_radius(NodeId(2)), Some(80));
    assert_eq!(registry.get_radius(NodeId(3)), Some(20));
    assert_eq!(registry.get_radius(NodeId(4)), None);
    registry.update_node_radius(NodeId(1), 45);
    assert_eq!(registry.get_radius(NodeId(1)), Some(45));
    registry.update_node_radius(NodeId(1), 81);
    assert_eq!(registry.get_radius(NodeId(1)), Some(80));
    registry.update_node_radius(NodeId(1), -3);
    assert_eq!(registry.get_radius(NodeId(1)), Some(20));
    registry.update_node_radius(NodeId(9), 45);
    assert_eq!(registry.node_count(), 3);
    assert_eq!(registry.calculate_physics_radius(NodeId(2)), 80);
    assert_eq!(registry.calculate_physics_radius(NodeId(9)), 30);
    let narrow = NodeConfig { min_node_radius: 10, max_node_radius: 12, ..NodeConfig::new() };
    let mut registry = Registry::with_config(narrow);
    registry.add_node(NodeId(1), (0, 0), 30, text("t"));
    assert_eq!(registry.get_radius(NodeId(1)), Some(12));
    // 30 + 1 * 8 + 0 = 38, limited to 12
    assert_eq!(registry.calculate_dynamic_radius(Some(1), 0), 12);
}

#[test]
fn dynamic_radius_follows_the_sizing_policy() {
    let registry = Registry::new();
    // 30 + 4 * 8 + 3 * 4 = 74
    assert_eq!(registry.calculate_dynamic_radius(Some(4), 3), 74);
    // A missing importance counts as 3: 30 + 24 + 0 = 54
    assert_eq!(registry.calculate_dynamic_radius(None, 0), 54);
    assert_eq!(registry.calculate_dynamic_radius(Some(5), 1000), 80);
    assert_eq!(registry.calculate_dynamic_radius(Some(0), 0), 30);
}

#[test]
fn the_first_author_node_is_the_anchor() {
    let mut registry = Registry::new();
    assert_eq!(registry.get_author_node_id(), None);
    registry.add_node(NodeId(1), (0, 0), 30, text("t"));
    assert_eq!(registry.get_author_node_id(), None);
    registry.add_node(NodeId(2), (0, 0), 60, author("first"));
    registry.add_node(NodeId(3), (0, 0), 60, author("second"));
    assert_eq!(registry.get_author_node_id(), Some(NodeId(2)));
    assert!(registry.is_author_node(NodeId(2)));
    assert!(!registry.is_author_node(NodeId(3)));
    assert!(!registry.is_author_node(NodeId(1)));
    assert!(!registry.is_author_node(NodeId(7)));
}

#[test]
fn edges_join_two_different_known_nodes_once() {
    let mut registry = Registry::new();
    for id in 1..=3 {
        registry.add_node(NodeId(id), (0, 0), 30, text("n"));
    }
    assert!(registry.add_edge(NodeId(1), NodeId(2)));
    assert!(!registry.add_edge(NodeId(1), NodeId(2)));
    assert!(!registry.add_edge(NodeId(2), NodeId(1)));
    assert!(!registry.add_edge(NodeId(1), NodeId(1)));
    assert!(!registry.add_edge(NodeId(1), NodeId(9)));
    assert!(!registry.add_edge(NodeId(9), NodeId(1)));
    assert!(registry.add_edge(NodeId(3), NodeId(2)));
    assert_eq!(registry.edge_count(), 2);
    assert_eq!(registry.iter_edges(), vec![(NodeId(1), NodeId(2)), (NodeId(3), NodeId(2))]);
    assert_eq!(registry.edge_at(1), (NodeId(3), NodeId(2)));
    assert!(registry.contains_edge(NodeId(2), NodeId(3)));
    assert!(registry.contains_edge(NodeId(3), NodeId(2)));
    assert!(!registry.contains_edge(NodeId(1), NodeId(3)));
}

#[test]
fn node_attributes_are_set_and_read() {
    let mut registry = Registry::new();
    registry.add_node(NodeId(1), (0, 0), 30, text("n"));
    registry.set_node_importance(NodeId(1), 5);
    registry.set_node_inbound_count(NodeId(1), 7);
    registry.set_node_category(NodeId(1), Some("math".to_string()));
    registry.set_position(NodeId(1), (10, -4));
    registry.set_node_importance(NodeId(2), 1);
    registry.set_position(NodeId(2), (1, 1));
    assert_eq!(registry.get_node_importance(NodeId(1)), Some(5));
    assert_eq!(registry.get_node_importance(NodeId(2)), None);
    assert_eq!(registry.get_node_inbound_count(NodeId(1)), 7);
    assert_eq!(registry.get_node_inbound_count(NodeId(2)), 0);
    let record = registry.get(NodeId(1)).unwrap();
    assert_eq!(record.position, (10, -4));
    assert_eq!(record.category, Some("math".to_string()));
    assert_eq!(record.radius, 30);
    assert_eq!(registry.node_count(), 1);
    registry.set_connection_line_visibility(true);
    assert!(registry.connection_lines_visible());
    registry.set_connection_line_visibility(false);
    assert!(!registry.connection_lines_visible());
}

#[test]
fn categories_are_listed_once_in_order_of_first_appearance() {
    let mut registry = Registry::new();
    for (id, category) in
        [(1, Some("b")), (2, None), (3, Some("a")), (4, Some("b")), (5, Some("a")), (6, Some(""))]
    {
        registry.add_node(NodeId(id), (0, 0), 30, text("n"));
        registry.set_node_category(NodeId(id), category.map(|c| c.to_string()));
    }
    assert_eq!(registry.get_all_categories(), vec!["b", "a", ""]);
    assert_eq!(registry.get_nodes_by_category("b"), vec![NodeId(1), NodeId(4)]);
    assert_eq!(registry.get_nodes_by_category("a"), vec![NodeId(3), NodeId(5)]);
    assert_eq!(registry.get_nodes_by_category(""), vec![NodeId(6)]);
    assert_eq!(registry.get_nodes_by_category("c"), vec![]);
    assert!(Registry::new().get_all_categories().is_empty());
}

fn processed(slug: &str, home: bool, image: Option<&str>, links: &[&str]) -> ProcessedArticle {
    ProcessedArticle {
        slug: slug.to_string(),
        title: format!("About {}", slug),
        metadata: ProcessedMetadata {
            title: format!("About {}", slug),
            home_display: home,
            category: Some("c".to_string()),
            importance: if slug == "plain" { None } else { Some(4) },
            related_articles: vec![],
            tags: vec![],
            created_at: None,
            updated_at: None,
            author_image: image.map(|i| i.to_string()),
        },
        file_path: format!("{}.md", slug),
        outbound_links: links
            .iter()
            .map(|t| ProcessedLink {
                target_slug: t.to_string(),
                link_type: LinkType::MarkdownLink,
                original_text: None,
            })
            .collect(),
        inbound_links: vec![ProcessedLink {
            target_slug: slug.to_string(),
            link_type: LinkType::MarkdownLink,
            original_text: None,
        }],
        processed_at: String::new(),
    }
}

fn data(articles: Vec<ProcessedArticle>) -> ArticlesData {
    ArticlesData {
        total_count: articles.len(),
        home_articles: vec![],
        generated_at: String::new(),
        articles,
    }
}

#[test]
fn registry_is_built_from_the_home_articles() {
    let config = AppConfig::new("/site".to_string());
    let articles = data(vec![
        processed("me", true, Some("articles/img/author_img.png"), &["rust", "hidden", "me"]),
        processed("hidden", false, None, &["me"]),
        processed("rust", true, None, &["me", "plain", "nowhere"]),
        processed("plain", true, None, &["rust"]),
    ]);
    assert_eq!(NodeRegistryBuilder::home_article_indices(&articles), vec![0, 2, 3]);
    let (registry, slugs) = NodeRegistryBuilder::build_from_articles(
        &config,
        &articles,
        vec![(0, 0), (10, 0), (20, 0)],
        (-1, -1),
    );
    assert_eq!(registry.node_ids(), vec![NodeId(1), NodeId(2), NodeId(3)]);
    assert_eq!(
        slugs,
        vec![
            (NodeId(1), "me".to_string()),
            (NodeId(2), "rust".to_string()),
            (NodeId(3), "plain".to_string()),
        ]
    );
    let me = registry.get(NodeId(1)).unwrap();
    assert_eq!(me.position, (0, 0));
    assert_eq!(me.radius, 60);
    assert_eq!(me.importance, Some(4));
    assert_eq!(me.inbound_count, 1);
    match &me.content {
        NodeContent::Author { name, image_url, bio } => {
            assert_eq!(name, "About me");
            assert_eq!(image_url, "/site/articles/img/author_img_medium.png");
            assert_eq!(bio, &None);
        }
        other => panic!("unexpected content {:?}", other),
    }
    let plain = registry.get(NodeId(3)).unwrap();
    assert_eq!(plain.position, (20, 0));
    assert_eq!(plain.radius, 30);
    assert_eq!(plain.importance, Some(3));
    assert!(matches!(&plain.content, NodeContent::Text(title) if title == "About plain"));
    assert_eq!(registry.get_author_node_id(), Some(NodeId(1)));
    // me -> rust; rust -> me is the same edge; rust -> plain; plain -> rust is the same edge.
    assert_eq!(registry.iter_edges(), vec![(NodeId(1), NodeId(2)), (NodeId(2), NodeId(3))]);
}

#[test]
fn registry_without_home_articles_is_a_single_node() {
    let config = AppConfig::new(String::new());
    let articles = data(vec![processed("hidden", false, None, &[])]);
    let (registry, slugs) =
        NodeRegistryBuilder::build_from_articles(&config, &articles, vec![], (400, 300));
    assert_eq!(registry.node_ids(), vec![NodeId(1)]);
    let only = registry.get(NodeId(1)).unwrap();
    assert_eq!(only.position, (400, 300));
    assert_eq!(only.radius, 40);
    assert!(matches!(&only.content, NodeContent::Text(title) if title == "Author"));
    assert_eq!(registry.get_author_node_id(), None);
    assert_eq!(registry.edge_count(), 0);
    assert_eq!(slugs, vec![(NodeId(1), "author".to_string())]);
}

#[test]
fn author_image_urls() {
    let hosted = AppConfig::new("/site".to_string());
    let url = |image: &str| NodeRegistryBuilder::get_optimized_image_url(&hosted, image);
    assert_eq!(url("articles/img/author_img.png"), "/site/articles/img/author_img_medium.png");
    assert_eq!(url("/articles/img/author_img.png"), "/site/articles/img/author_img_medium.png");
    assert_eq!(url("articles/img/other.png"), "/site/articles/img/other.png");
    assert_eq!(url("img/articles/img/author_img.png"), "/site/img/articles/img/author_img.png");
    assert_eq!(url("https://x/y.png"), "/site/https://x/y.png");
    assert_eq!(NodeRegistryBuilder::base_radius(&processed("a", true, Some("x"), &[])), 60);
    assert_eq!(NodeRegistryBuilder::base_radius(&processed("a", true, None, &[])), 30);
    assert_eq!(
        NodeRegistryBuilder::find_slug_node(
            &data(vec![processed("a", true, None, &[]), processed("a", true, None, &[])]),
            &vec![0, 1],
            "a"
        ),
        Some(NodeId(2))
    );
}

#[test]
fn articles_are_assembled_for_the_link_validator() {
    let processor = ArticleProcessor::new().unwrap();
    let metadata = ArticleMetadata { title: "Async".to_string(), ..Default::default() };
    let article = processor
        .assemble("rust-async".to_string(), metadata, "See [tokio](tokio-basics) and [x](http://x).")
        .unwrap();
    assert_eq!(article.slug, "rust-async");
    assert_eq!(article.title, "Async");
    assert_eq!(article.metadata.title, "Async");
    assert!(article.inbound_links.is_empty());
    assert_eq!(article.outbound_links.len(), 1);
    assert_eq!(article.outbound_links[0].target_slug, "tokio-basics");
    let broken = ArticleMetadata { title: "T".to_string(), importance: 9, ..Default::default() };
    assert_eq!(
        processor.assemble("s".to_string(), broken, "text").err(),
        Some(MetadataError::ImportanceOutOfRange(9))
    );
    assert_eq!(ArticleProcessor::generate_slug_from_path("../content/articles/hello-world.md"), "hello-world");
    assert_eq!(ArticleProcessor::generate_slug_from_path("notes"), "notes");
    assert_eq!(ArticleProcessor::generate_slug_from_path(""), "untitled");
    assert_eq!(ArticleProcessor::slug_or_untitled(None), "untitled");
    assert_eq!(ArticleProcessor::slug_or_untitled(Some("x".to_string())), "x");
}

#[test]
fn articles_are_processed_from_their_parts() {
    let metadata = ArticleMetadata { title: "T".to_string(), ..Default::default() };
    let article =
        ArticleProcessor::process_parts("slug".to_string(), metadata, "[[Wiki Page]] text").unwrap();
    assert_eq!(article.slug, "slug");
    assert_eq!(article.outbound_links.len(), 1);
    assert_eq!(article.outbound_links[0].target_slug, "wiki-page");
    let blank = ArticleMetadata { title: " ".to_string(), ..Default::default() };
    assert_eq!(
        ArticleProcessor::process_parts("s".to_string(), blank, "").err(),
        Some(ProcessingError::Metadata(MetadataError::EmptyTitle))
    );
}
