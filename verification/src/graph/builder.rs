//! Building the registry of the home page from the loaded articles.
//!
//! Where the nodes are placed is numeric and decided by the caller, who
//! hands in one position per node. Which articles become nodes, what each
//! node shows, and which edges join them is decided here.

use vstd::prelude::*;
use vstd::string::StringExecFns;
use crate::config::{url_under, AppConfig, NodeConfig};
use crate::data::types::{ArticlesData, ProcessedArticle, ProcessedLink};
use crate::graph::node::{NodeContent, NodeId};
use crate::graph::registry::{same_edge, NodeRecord, NodeRegistry};
use crate::text::{replace, replaced, starts_with, starts_with_text, str_eq};

verus! {

/// The radius of the node of an article that carries an author image.
pub const AUTHOR_BASE_RADIUS: i32 = 60;

/// The radius of the node of any other article.
pub const ARTICLE_BASE_RADIUS: i32 = 30;

/// The radius of the single node of a registry without articles.
pub const FALLBACK_BASE_RADIUS: i32 = 40;

/// The importance of an article that states none.
pub const DEFAULT_IMPORTANCE: u8 = 3;

/// The indices of the articles that are shown on the home page, in order.
pub open spec fn home_indices(articles: Seq<ProcessedArticle>) -> Seq<int>
    decreases articles.len(),
{
    if articles.len() == 0 {
        Seq::empty()
    } else {
        let earlier = home_indices(articles.drop_last());
        if articles.last().metadata.home_display {
            earlier.push(articles.len() - 1)
        } else {
            earlier
        }
    }
}

/// The path of the image that is shown for an author image: the medium
/// rendition of the author image under the articles directory, and the
/// image itself otherwise.
pub open spec fn optimized_path(image_url: Seq<char>) -> Seq<char> {
    if starts_with_text(image_url, "articles/"@) || starts_with_text(image_url, "/articles/"@) {
        replaced(
            replaced(
                image_url,
                "articles/img/author_img.png"@,
                "articles/img/author_img_medium.png"@,
            ),
            "/articles/img/author_img.png"@,
            "/articles/img/author_img_medium.png"@,
        )
    } else {
        image_url
    }
}

/// What the node of an article shows, under a site base path: the author
/// with the optimized image where the article carries an author image,
/// the title otherwise.
pub open spec fn content_fits(content: NodeContent, base_path: Seq<char>, article: ProcessedArticle) -> bool {
    match article.metadata.author_image {
        Some(image) => content matches NodeContent::Author { name, image_url, bio } && name@
            == article.title@ && image_url@ == url_under(base_path, optimized_path(image@))
            && bio is None,
        None => content matches NodeContent::Text(title) && title@ == article.title@,
    }
}

/// The radius that the node of an article starts with.
pub open spec fn base_radius_of(article: ProcessedArticle) -> i32 {
    if article.metadata.author_image is Some {
        AUTHOR_BASE_RADIUS
    } else {
        ARTICLE_BASE_RADIUS
    }
}

/// The record is that of the `k`-th home article: numbered from one,
/// placed where the caller said, sized and filled by the article.
pub open spec fn record_fits<P>(
    record: NodeRecord<P>,
    k: int,
    position: P,
    base_path: Seq<char>,
    article: ProcessedArticle,
) -> bool {
    &&& record.id == NodeId((k + 1) as u32)
    &&& record.position == position
    &&& record.radius == base_radius_of(article)
    &&& content_fits(record.content, base_path, article)
    &&& record.importance == Some(
        match article.metadata.importance {
            Some(value) => value,
            None => DEFAULT_IMPORTANCE,
        },
    )
    &&& record.inbound_count == article.inbound_links@.len()
    &&& record.category is None
}

/// The node of the last of the first `count` home articles that has the
/// given slug.
pub open spec fn slug_node(
    articles: Seq<ProcessedArticle>,
    home: Seq<int>,
    count: int,
    slug: Seq<char>,
) -> Option<NodeId>
    decreases count,
{
    if count <= 0 || count > home.len() {
        None
    } else if articles[home[count - 1]].slug@ == slug {
        Some(NodeId(count as u32))
    } else {
        slug_node(articles, home, count - 1, slug)
    }
}

/// The edges list one between `a` and `b`, in either direction.
pub open spec fn edge_listed(edges: Seq<(NodeId, NodeId)>, a: NodeId, b: NodeId) -> bool {
    exists|k: int| 0 <= k < edges.len() && same_edge(#[trigger] edges[k], (a, b))
}

/// The edges with one more between two different nodes, unless they list
/// one between them already.
pub open spec fn with_edge(edges: Seq<(NodeId, NodeId)>, from: NodeId, to: NodeId) -> Seq<(NodeId, NodeId)> {
    if from != to && !edge_listed(edges, from, to) {
        edges.push((from, to))
    } else {
        edges
    }
}

/// The edges after the links of one article: each link whose target is a
/// home article adds the edge from the article's node to the target's.
pub open spec fn with_links(
    edges: Seq<(NodeId, NodeId)>,
    articles: Seq<ProcessedArticle>,
    home: Seq<int>,
    from: NodeId,
    links: Seq<ProcessedLink>,
) -> Seq<(NodeId, NodeId)>
    decreases links.len(),
{
    if links.len() == 0 {
        edges
    } else {
        let earlier = with_links(edges, articles, home, from, links.drop_last());
        match slug_node(articles, home, home.len() as int, links.last().target_slug@) {
            Some(to) => with_edge(earlier, from, to),
            None => earlier,
        }
    }
}

/// The edges after the links of the first `count` home articles.
pub open spec fn home_edges(articles: Seq<ProcessedArticle>, home: Seq<int>, count: int) -> Seq<(NodeId, NodeId)>
    decreases count,
{
    if count <= 0 || count > home.len() {
        Seq::empty()
    } else {
        let earlier = home_edges(articles, home, count - 1);
        let article = articles[home[count - 1]];
        match slug_node(articles, home, home.len() as int, article.slug@) {
            Some(from) => with_links(earlier, articles, home, from, article.outbound_links@),
            None => earlier,
        }
    }
}

/// There are no more home articles than articles.
pub proof fn lemma_home_count(articles: Seq<ProcessedArticle>)
    ensures
        home_indices(articles).len() <= articles.len(),
    decreases articles.len(),
{
    if articles.len() > 0 {
        lemma_home_count(articles.drop_last());
    }
}

/// Builds the registry of the home page.
pub struct NodeRegistryBuilder;

impl NodeRegistryBuilder {
    /// The indices of the articles that are shown on the home page.
    pub fn home_article_indices(articles_data: &ArticlesData) -> (home: Vec<usize>)
        ensures
            home@.map_values(|i: usize| i as int) == home_indices(articles_data.articles@),
            forall|k: int| 0 <= k < home@.len() ==> home@[k] < articles_data.articles@.len(),
    {
        let articles = &articles_data.articles;
        let mut home: Vec<usize> = Vec::new();
        let mut i: usize = 0;
        assert(articles@.take(0) =~= Seq::<ProcessedArticle>::empty());
        assert(home@.map_values(|i: usize| i as int) =~= home_indices(articles@.take(0)));
        while i < articles.len()
            invariant
                i <= articles.len(),
                home@.map_values(|i: usize| i as int) == home_indices(articles@.take(i as int)),
                forall|k: int| 0 <= k < home@.len() ==> home@[k] < i,
            decreases articles.len() - i,
        {
            proof {
                assert(articles@.take(i + 1).drop_last() =~= articles@.take(i as int));
            }
            if articles[i].metadata.home_display {
                let ghost before = home@;
                home.push(i);
                assert(home@.map_values(|i: usize| i as int) =~= before.map_values(
                    |i: usize| i as int,
                ).push(i as int));
            }
            i += 1;
        }
        assert(articles@.take(i as int) =~= articles@);
        home
    }

    /// The URL of the image that is shown for an author image.
    pub fn get_optimized_image_url(config: &AppConfig, image_url: &str) -> (url: String)
        ensures
            url@ == url_under(config.base_path@, optimized_path(image_url@)),
    {
        if starts_with(image_url, "articles/") || starts_with(image_url, "/articles/") {
            let first = replace(
                image_url,
                "articles/img/author_img.png",
                "articles/img/author_img_medium.png",
            );
            let optimized_path = replace(
                first.as_str(),
                "/articles/img/author_img.png",
                "/articles/img/author_img_medium.png",
            );
            config.get_url(optimized_path.as_str())
        } else {
            config.get_url(image_url)
        }
    }

    /// What the node of an article shows.
    pub fn determine_node_content(config: &AppConfig, article: &ProcessedArticle) -> (content: NodeContent)
        ensures
            content_fits(content, config.base_path@, *article),
    {
        match &article.metadata.author_image {
            Some(image_url) => NodeContent::Author {
                name: article.title.clone(),
                image_url: Self::get_optimized_image_url(config, image_url.as_str()),
                bio: None,
            },
            None => NodeContent::Text(article.title.clone()),
        }
    }

    /// The radius that the node of an article starts with.
    pub fn base_radius(article: &ProcessedArticle) -> (radius: i32)
        ensures
            radius == base_radius_of(*article),
    {
        if article.metadata.author_image.is_some() {
            AUTHOR_BASE_RADIUS
        } else {
            ARTICLE_BASE_RADIUS
        }
    }

    /// The registry of a site without home articles: one text node named
    /// `Author` at the given position, known by the slug `author`.
    pub fn create_fallback_registry<P>(position: P) -> (built: (NodeRegistry<P>, Vec<(NodeId, String)>))
        ensures
            built.0.wf(),
            built.0.config() == NodeConfig::defaults(),
            built.0.nodes().len() == 1,
            built.0.nodes()[0].id == NodeId(1),
            built.0.nodes()[0].position == position,
            built.0.nodes()[0].radius == FALLBACK_BASE_RADIUS,
            built.0.nodes()[0].content matches NodeContent::Text(title) && title@ == "Author"@,
            built.0.edges().len() == 0,
            built.0.anchor() is None,
            built.1@.len() == 1,
            built.1@[0].0 == NodeId(1),
            built.1@[0].1@ == "author"@,
    {
        let mut registry: NodeRegistry<P> = NodeRegistry::new();
        registry.add_node(
            NodeId(1),
            position,
            FALLBACK_BASE_RADIUS,
            NodeContent::Text(String::from_str("Author")),
        );
        let mut id_to_slug: Vec<(NodeId, String)> = Vec::new();
        id_to_slug.push((NodeId(1), String::from_str("author")));
        (registry, id_to_slug)
    }

    /// The node of the last home article that has the given slug.
    pub fn find_slug_node(articles_data: &ArticlesData, home: &Vec<usize>, slug: &str) -> (found: Option<NodeId>)
        requires
            home@.len() <= u32::MAX,
            forall|k: int| 0 <= k < home@.len() ==> home@[k] < articles_data.articles@.len(),
        ensures
            found == slug_node(
                articles_data.articles@,
                home@.map_values(|i: usize| i as int),
                home@.len() as int,
                slug@,
            ),
            found matches Some(id) ==> 1 <= id.0 <= home@.len(),
    {
        let ghost indices = home@.map_values(|i: usize| i as int);
        let mut count: usize = home.len();
        while count > 0
            invariant
                count <= home@.len(),
                home@.len() <= u32::MAX,
                indices == home@.map_values(|i: usize| i as int),
                forall|k: int| 0 <= k < home@.len() ==> home@[k] < articles_data.articles@.len(),
                slug_node(articles_data.articles@, indices, home@.len() as int, slug@)
                    == slug_node(articles_data.articles@, indices, count as int, slug@),
            decreases count,
        {
            assert(indices[count - 1] == home@[count - 1] as int);
            if str_eq(articles_data.articles[home[count - 1]].slug.as_str(), slug) {
                return Some(NodeId(count as u32));
            }
            count -= 1;
        }
        None
    }

    /// Builds the registry of the home page and the slug of each node.
    ///
    /// Every article that is shown on the home page becomes a node,
    /// numbered from one in the order of the articles and placed at the
    /// position of its rank. Every link from one home article to another
    /// becomes an edge. Where no article is shown on the home page the
    /// registry holds a single node at the fallback position.
    pub fn build_from_articles<P>(
        config: &AppConfig,
        articles_data: &ArticlesData,
        positions: Vec<P>,
        fallback_position: P,
    ) -> (built: (NodeRegistry<P>, Vec<(NodeId, String)>))
        requires
            articles_data.articles@.len() <= u32::MAX,
            positions@.len() == home_indices(articles_data.articles@).len(),
        ensures
            built.0.wf(),
            built.0.config() == NodeConfig::defaults(),
            home_indices(articles_data.articles@).len() == 0 ==> {
                &&& built.0.nodes().len() == 1
                &&& built.0.nodes()[0].id == NodeId(1)
                &&& built.0.nodes()[0].position == fallback_position
                &&& built.0.nodes()[0].radius == FALLBACK_BASE_RADIUS
                &&& built.0.nodes()[0].content matches NodeContent::Text(title) && title@
                    == "Author"@
                &&& built.0.edges().len() == 0
                &&& built.1@.len() == 1
                &&& built.1@[0].0 == NodeId(1)
                &&& built.1@[0].1@ == "author"@
            },
            home_indices(articles_data.articles@).len() > 0 ==> {
                let home = home_indices(articles_data.articles@);
                &&& built.0.nodes().len() == home.len()
                &&& built.1@.len() == home.len()
                &&& forall|k: int|
                    0 <= k < home.len() ==> record_fits(
                        #[trigger] built.0.nodes()[k],
                        k,
                        positions@[k],
                        config.base_path@,
                        articles_data.articles@[home[k]],
                    )
                &&& forall|k: int|
                    0 <= k < home.len() ==> (#[trigger] built.1@[k]).0 == NodeId((k + 1) as u32)
                        && built.1@[k].1@ == articles_data.articles@[home[k]].slug@
                &&& built.0.edges() == home_edges(articles_data.articles@, home, home.len() as int)
            },
    {
        let articles = &articles_data.articles;
        let home = Self::home_article_indices(articles_data);
        let ghost indices = home_indices(articles@);
        let count = home.len();
        proof {
            lemma_home_count(articles@);
            assert(indices.len() == count);
            assert forall|k: int| 0 <= k < count implies indices[k] == home@[k] as int by {
                assert(home@.map_values(|i: usize| i as int)[k] == home@[k] as int);
            }
        }
        if count == 0 {
            return Self::create_fallback_registry(fallback_position);
        }
        let mut rest = positions;
        let mut registry: NodeRegistry<P> = NodeRegistry::new();
        let mut id_to_slug: Vec<(NodeId, String)> = Vec::new();
        let mut k: usize = 0;
        assert(rest@ =~= positions@.subrange(0, count as int));
        while k < count
            invariant
                k <= count,
                count == home@.len(),
                count <= u32::MAX,
                indices == home_indices(articles@),
                indices.len() == count,
                forall|j: int| 0 <= j < count ==> indices[j] == home@[j] as int,
                forall|j: int| 0 <= j < count ==> home@[j] < articles@.len(),
                positions@.len() == count,
                rest@ == positions@.subrange(k as int, count as int),
                registry.wf(),
                registry.config() == NodeConfig::defaults(),
                registry.edges().len() == 0,
                registry.nodes().len() == k,
                forall|j: int|
                    0 <= j < k ==> record_fits(
                        #[trigger] registry.nodes()[j],
                        j,
                        positions@[j],
                        config.base_path@,
                        articles@[indices[j]],
                    ),
                id_to_slug@.len() == k,
                forall|j: int|
                    0 <= j < k ==> (#[trigger] id_to_slug@[j]).0 == NodeId((j + 1) as u32)
                        && id_to_slug@[j].1@ == articles@[indices[j]].slug@,
            decreases count - k,
        {
            let article = &articles[home[k]];
            let node_id = NodeId((k + 1) as u32);
            let content = Self::determine_node_content(config, article);
            let radius = Self::base_radius(article);
            let position = rest.remove(0);
            let importance = match article.metadata.importance {
                Some(value) => value,
                None => DEFAULT_IMPORTANCE,
            };
            proof {
                assert(position == positions@[k as int]);
                assert(rest@ =~= positions@.subrange(k + 1, count as int));
                assert(!registry.contains(node_id)) by {
                    if registry.contains(node_id) {
                        let j = registry.position_of(node_id);
                        assert(registry.nodes()[j].id == NodeId((j + 1) as u32));
                    }
                }
            }
            let ghost before = registry;
            registry.add_node(node_id, position, radius, content);
            proof {
                assert(registry.nodes()[k as int].id == node_id);
                registry.lemma_position_unique(k as int);
            }
            let ghost added = registry;
            registry.set_node_importance(node_id, importance);
            proof {
                assert(registry.nodes()[k as int].id == node_id);
                registry.lemma_position_unique(k as int);
            }
            let ghost rated = registry;
            registry.set_node_inbound_count(node_id, article.inbound_links.len());
            id_to_slug.push((node_id, article.slug.clone()));
            proof {
                assert forall|j: int| 0 <= j < k + 1 implies record_fits(
                    #[trigger] registry.nodes()[j],
                    j,
                    positions@[j],
                    config.base_path@,
                    articles@[indices[j]],
                ) by {
                    if j < k {
                        assert(registry.nodes()[j] == before.nodes()[j]);
                    }
                }
            }
            k += 1;
        }
        let ghost nodes = registry.nodes();
        let mut k: usize = 0;
        while k < count
            invariant
                k <= count,
                count == home@.len(),
                count <= u32::MAX,
                indices == home_indices(articles@),
                indices.len() == count,
                indices == home@.map_values(|i: usize| i as int),
                forall|j: int| 0 <= j < count ==> indices[j] == home@[j] as int,
                forall|j: int| 0 <= j < count ==> home@[j] < articles@.len(),
                articles == &articles_data.articles,
                registry.wf(),
                registry.config() == NodeConfig::defaults(),
                registry.nodes() == nodes,
                nodes.len() == count,
                forall|j: int| 0 <= j < count ==> (#[trigger] nodes[j]).id == NodeId((j + 1) as u32),
                registry.edges() == home_edges(articles@, indices, k as int),
            decreases count - k,
        {
            let article = &articles[home[k]];
            assert(indices[k as int] == home@[k as int] as int);
            match Self::find_slug_node(articles_data, &home, article.slug.as_str()) {
                Some(from) => {
                    let links = &article.outbound_links;
                    let ghost start = registry.edges();
                    let mut m: usize = 0;
                    assert(links@.take(0) =~= Seq::<ProcessedLink>::empty());
                    while m < links.len()
                        invariant
                            m <= links.len(),
                            count == home@.len(),
                            count <= u32::MAX,
                            indices == home@.map_values(|i: usize| i as int),
                            indices.len() == count,
                            forall|j: int| 0 <= j < count ==> home@[j] < articles_data.articles@.len(),
                            articles == &articles_data.articles,
                            1 <= from.0 <= count,
                            registry.wf(),
                            registry.config() == NodeConfig::defaults(),
                            registry.nodes() == nodes,
                            nodes.len() == count,
                            forall|j: int|
                                0 <= j < count ==> (#[trigger] nodes[j]).id == NodeId(
                                    (j + 1) as u32,
                                ),
                            registry.edges() == with_links(
                                start,
                                articles@,
                                indices,
                                from,
                                links@.take(m as int),
                            ),
                        decreases links.len() - m,
                    {
                        proof {
                            assert(links@.take(m + 1).drop_last() =~= links@.take(m as int));
                        }
                        match Self::find_slug_node(
                            articles_data,
                            &home,
                            links[m].target_slug.as_str(),
                        ) {
                            Some(to) => {
                                proof {
                                    assert(registry.nodes()[from.0 - 1].id == from);
                                    assert(registry.nodes()[to.0 - 1].id == to);
                                    assert(registry.contains(from) && registry.contains(to));
                                    assert(registry.has_edge(from, to) == edge_listed(
                                        registry.edges(),
                                        from,
                                        to,
                                    ));
                                }
                                registry.add_edge(from, to);
                            },
                            None => {},
                        }
                        m += 1;
                    }
                    assert(links@.take(m as int) =~= links@);
                },
                None => {},
            }
            k += 1;
        }
        proof {
            assert forall|j: int| 0 <= j < count implies record_fits(
                #[trigger] registry.nodes()[j],
                j,
                positions@[j],
                config.base_path@,
                articles@[indices[j]],
            ) by {}
        }
        (registry, id_to_slug)
    }
}

} // verus!
