use khimoo_portfolio::data::loading::{
    articles_or_fallback, find_article_by_slug, http_failure, to_lightweight,
};
use khimoo_portfolio::data::parsers::{join_from, lines_of};
use khimoo_portfolio::data::{
    ArticlesData, DataCache, DataLoadError, FrontMatterParser, LightweightArticle, LinkType,
    MarkdownProcessor, ProcessedArticle, ProcessedLink, ProcessedMetadata, StringTable, SummaryExtractor,
};

fn article(slug: &str) -> ProcessedArticle {
    ProcessedArticle {
        slug: slug.to_string(),
        title: format!("Title of {}", slug),
        metadata: ProcessedMetadata {
            title: format!("Title of {}", slug),
            home_display: true,
            category: Some("programming".to_string()),
            importance: Some(4),
            related_articles: vec![],
            tags: vec!["rust".to_string()],
            created_at: None,
            updated_at: None,
            author_image: None,
        },
        file_path: format!("articles/{}.md", slug),
        outbound_links: vec![ProcessedLink {
            target_slug: "other".to_string(),
            link_type: LinkType::MarkdownLink,
            original_text: Some("[other](other)".to_string()),
        }],
        inbound_links: vec![],
        processed_at: "2024-01-01T00:00:00Z".to_string(),
    }
}

fn collection(slugs: &[&str]) -> ArticlesData {
    ArticlesData {
        articles: slugs.iter().map(|s| article(s)).collect(),
        generated_at: "2024-02-02T00:00:00Z".to_string(),
        total_count: slugs.len(),
        home_articles: slugs.iter().map(|s| s.to_string()).collect(),
    }
}

#[test]
fn cache_starts_empty_and_keeps_what_it_is_given() {
    let mut cache = DataCache::new();
    let stats = cache.stats();
    assert!(!stats.has_articles);
    assert_eq!(stats.cached_articles_count, 0);
    assert_eq!(stats.cached_content_count, 0);
    assert_eq!(cache.get_articles(), None);
    assert_eq!(cache.get_article("a"), None);
    assert_eq!(cache.get_content("a.md"), None);

    cache.cache_articles(collection(&["a", "b"]));
    cache.cache_article("a".to_string(), article("a"));
    cache.cache_article("b".to_string(), article("b"));
    cache.cache_content("a.md".to_string(), "text of a".to_string());
    assert_eq!(cache.get_articles(), Some(&collection(&["a", "b"])));
    assert_eq!(cache.get_article("a"), Some(&article("a")));
    assert_eq!(cache.get_article("b"), Some(&article("b")));
    assert_eq!(cache.get_article("c"), None);
    assert_eq!(cache.get_content("a.md"), Some(&"text of a".to_string()));
    assert_eq!(cache.get_content("a"), None);
    let stats = cache.stats();
    assert!(stats.has_articles);
    assert_eq!(stats.cached_articles_count, 2);
    assert_eq!(stats.cached_content_count, 1);
}

#[test]
fn cache_replaces_under_the_same_key_and_clears() {
    let mut cache = DataCache::new();
    cache.cache_article("a".to_string(), article("a"));
    cache.cache_article("a".to_string(), article("replacement"));
    assert_eq!(cache.get_article("a"), Some(&article("replacement")));
    assert_eq!(cache.stats().cached_articles_count, 1);
    cache.cache_content("p".to_string(), "one".to_string());
    cache.cache_content("q".to_string(), "two".to_string());
    cache.cache_content("p".to_string(), "three".to_string());
    assert_eq!(cache.get_content("p"), Some(&"three".to_string()));
    assert_eq!(cache.get_content("q"), Some(&"two".to_string()));
    assert_eq!(cache.stats().cached_content_count, 2);
    cache.cache_articles(collection(&["a"]));
    cache.cache_articles(collection(&["b"]));
    assert_eq!(cache.get_articles(), Some(&collection(&["b"])));
    cache.clear();
    let stats = cache.stats();
    assert!(!stats.has_articles);
    assert_eq!(stats.cached_articles_count, 0);
    assert_eq!(stats.cached_content_count, 0);
    assert_eq!(cache.get_article("a"), None);
    assert_eq!(cache.get_content("p"), None);
}

#[test]
fn string_table_keeps_first_come_order() {
    let mut table: StringTable<u32> = StringTable::new();
    assert_eq!(table.len(), 0);
    table.insert("x".to_string(), 1);
    table.insert("y".to_string(), 2);
    table.insert("x".to_string(), 3);
    assert_eq!(table.len(), 2);
    assert_eq!(table.get("x"), Some(&3));
    assert_eq!(table.get("y"), Some(&2));
    assert_eq!(table.get(""), None);
    table.clear();
    assert_eq!(table.len(), 0);
    assert_eq!(table.get("x"), None);
}

#[test]
fn lightweight_article_keeps_every_field_and_has_no_summary() {
    let full = article("a");
    let light = LightweightArticle::from(full.clone());
    assert_eq!(light.slug, full.slug);
    assert_eq!(light.title, full.title);
    assert_eq!(light.summary, None);
    assert_eq!(light.metadata, full.metadata);
    assert_eq!(light.file_path, full.file_path);
    assert_eq!(light.outbound_links, full.outbound_links);
    assert_eq!(light.inbound_links, full.inbound_links);
    assert_eq!(light.processed_at, full.processed_at);
    let all = to_lightweight(vec![article("a"), article("b"), article("c")]);
    assert_eq!(
        all,
        vec![
            LightweightArticle::from(article("a")),
            LightweightArticle::from(article("b")),
            LightweightArticle::from(article("c")),
        ]
    );
    assert_eq!(to_lightweight(vec![]), vec![]);
}

#[test]
fn load_error_messages() {
    assert_eq!(DataLoadError::NetworkError("down".to_string()).message(), "Network error: down");
    assert_eq!(DataLoadError::ParseError("bad".to_string()).message(), "Parse error: bad");
    assert_eq!(DataLoadError::NotFound("gone".to_string()).message(), "Not found: gone");
    assert_eq!(http_failure(404, "Not Found"), DataLoadError::NotFound("HTTP 404: Not Found".to_string()));
    assert_eq!(http_failure(0, ""), DataLoadError::NotFound("HTTP 0: ".to_string()));
}

#[test]
fn loading_decisions() {
    assert_eq!(articles_or_fallback(Ok(collection(&["a"]))), collection(&["a"]));
    assert_eq!(
        articles_or_fallback(Err(DataLoadError::NetworkError("down".to_string()))),
        ArticlesData {
            articles: vec![],
            generated_at: "1970-01-01T00:00:00Z".to_string(),
            total_count: 0,
            home_articles: vec![],
        }
    );
    let mut twice = collection(&["a", "b", "a"]);
    twice.articles[2].title = "second a".to_string();
    assert_eq!(find_article_by_slug(twice.clone(), "a"), Ok(article("a")));
    assert_eq!(find_article_by_slug(twice.clone(), "b"), Ok(article("b")));
    assert_eq!(
        find_article_by_slug(twice, "c"),
        Err(DataLoadError::NotFound("Article not found: c".to_string()))
    );
    assert_eq!(
        find_article_by_slug(collection(&[]), ""),
        Err(DataLoadError::NotFound("Article not found: ".to_string()))
    );
}

#[test]
fn lines_are_split_like_the_standard_library_does() {
    for text in [
        "",
        "\n",
        "a",
        "a\n",
        "a\nb",
        "a\r\nb\r\n",
        "a\rb",
        "a\r",
        "\r\n",
        "\n\n",
        "a\n\nb\n",
        "x\r\r\ny",
        "日本\n語",
    ] {
        let expected: Vec<&str> = text.lines().collect();
        assert_eq!(lines_of(text), expected, "for {:?}", text);
    }
    let lines = vec!["a", "b", "c"];
    assert_eq!(join_from(&lines, 0, "\n"), "a\nb\nc");
    assert_eq!(join_from(&lines, 1, ", "), "b, c");
    assert_eq!(join_from(&lines, 2, ", "), "c");
    assert_eq!(join_from(&lines, 3, ", "), "");
}

#[test]
fn front_matter_is_dropped() {
    let text = "---\ntitle: \"T\"\n---\n\n# Heading\n\nBody.\n";
    assert_eq!(FrontMatterParser::parse_content_only(text), "# Heading\n\nBody.");
    assert_eq!(FrontMatterParser::parse_content_only("  ---\na: 1\n ---  \nBody"), "Body");
    // No closing delimiter: the trimmed text.
    assert_eq!(FrontMatterParser::parse_content_only("---\ntitle: x\nBody\n"), "---\ntitle: x\nBody");
    // No front matter: the trimmed text.
    assert_eq!(FrontMatterParser::parse_content_only("\n# Just text\n"), "# Just text");
    assert_eq!(FrontMatterParser::parse_content_only(""), "");
    // The opening line itself does not close.
    assert_eq!(FrontMatterParser::parse_content_only("---"), "---");
    assert_eq!(FrontMatterParser::parse_content_only("---\n---"), "");
    assert_eq!(FrontMatterParser::parse_content_only("---\r\na: 1\r\n---\r\nBody\r\nmore"), "Body\nmore");
    assert_eq!(FrontMatterParser::parse_content_only("---x\n---\nrest"), "rest");
}

#[test]
fn summary_is_the_first_paragraph() {
    let text = "# Title\n\n  First line  \nsecond line\n\nNext paragraph.";
    assert_eq!(SummaryExtractor::first_paragraph(text), "First line second line");
    assert_eq!(SummaryExtractor::extract_summary(text), "First line second line");
    assert_eq!(SummaryExtractor::try_extract_summary(text), Some("First line second line".to_string()));
    assert_eq!(SummaryExtractor::extract_summary("one\n# heading ends it\nthree"), "one");
    assert_eq!(SummaryExtractor::extract_summary("# only\n\n## headings\n"), "");
    assert_eq!(SummaryExtractor::extract_summary(""), "");
}

#[test]
fn long_summary_is_cut_at_197_bytes() {
    let long = "x".repeat(150);
    let text = format!("{}\n{}\nthird line\n", long, "y".repeat(100));
    // 150 + 1 + 100 = 251 bytes exceed the limit, so the third line is not taken.
    let paragraph = SummaryExtractor::first_paragraph(&text);
    assert_eq!(paragraph.len(), 251);
    assert!(SummaryExtractor::fits_or_cuts_cleanly(&paragraph));
    let summary = SummaryExtractor::extract_summary(&text);
    assert_eq!(summary.len(), 200);
    assert_eq!(summary, format!("{} {}...", long, "y".repeat(46)));
    // Exactly 200 bytes still fit.
    let exact = "z".repeat(200);
    assert_eq!(SummaryExtractor::extract_summary(&exact), exact);
    assert_eq!(SummaryExtractor::byte_length("日本"), 6);
    // Three-byte characters: byte 197 is inside the 66th character.
    let japanese = "あ".repeat(70);
    assert_eq!(SummaryExtractor::first_paragraph(&japanese).len(), 210);
    assert!(!SummaryExtractor::fits_or_cuts_cleanly(&japanese));
    assert_eq!(SummaryExtractor::try_extract_summary(&japanese), None);
    // With two bytes in front the cut falls between characters.
    let shifted = format!("ab{}", "あ".repeat(70));
    assert_eq!(
        SummaryExtractor::try_extract_summary(&shifted),
        Some(format!("ab{}...", "あ".repeat(65)))
    );
    assert_eq!(SummaryExtractor::cut_summary("short"), "short");
}

#[test]
fn markdown_is_rendered_as_html() {
    assert_eq!(MarkdownProcessor::process_to_html("# hello"), "<h1>hello</h1>\n");
    assert_eq!(
        MarkdownProcessor::process_to_html("a *b* [c](d)\n\n- x\n- y\n"),
        "<p>a <em>b</em> <a href=\"d\">c</a></p>\n<ul>\n<li>x</li>\n<li>y</li>\n</ul>\n"
    );
    assert_eq!(MarkdownProcessor::process_to_html(""), "");
}
