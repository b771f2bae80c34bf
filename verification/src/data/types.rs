//! The shape of the generated article data.

use vstd::prelude::*;
use vstd::string::StringExecFns;

verus! {

/// One article with its links, as generated from its source file.
#[derive(Debug, Clone, PartialEq)]
pub struct ProcessedArticle {
    pub slug: String,
    pub title: String,
    pub metadata: ProcessedMetadata,
    pub file_path: String,
    pub outbound_links: Vec<ProcessedLink>,
    pub inbound_links: Vec<ProcessedLink>,
    pub processed_at: String,
}

/// An article for list display, with an optional summary.
#[derive(Debug, Clone, PartialEq)]
pub struct LightweightArticle {
    pub slug: String,
    pub title: String,
    pub summary: Option<String>,
    pub metadata: ProcessedMetadata,
    pub file_path: String,
    pub outbound_links: Vec<ProcessedLink>,
    pub inbound_links: Vec<ProcessedLink>,
    pub processed_at: String,
}

/// The metadata of an article.
#[derive(Debug, Clone, PartialEq)]
pub struct ProcessedMetadata {
    pub title: String,
    pub home_display: bool,
    pub category: Option<String>,
    pub importance: Option<u8>,
    pub related_articles: Vec<String>,
    pub tags: Vec<String>,
    pub created_at: Option<String>,
    pub updated_at: Option<String>,
    pub author_image: Option<String>,
}

/// A link from one article to another.
#[derive(Debug, Clone, PartialEq)]
pub struct ProcessedLink {
    pub target_slug: String,
    pub link_type: LinkType,
    pub original_text: Option<String>,
}

/// The kinds of link that generated data hold.
#[derive(Debug, Clone, Copy, PartialEq, Eq, Structural)]
pub enum LinkType {
    MarkdownLink,
}

/// All articles of the site.
#[derive(Debug, Clone, PartialEq)]
pub struct ArticlesData {
    pub articles: Vec<ProcessedArticle>,
    pub generated_at: String,
    pub total_count: usize,
    pub home_articles: Vec<String>,
}

/// Why data could not be loaded.
#[derive(Debug, Clone, PartialEq)]
pub enum DataLoadError {
    NetworkError(String),
    ParseError(String),
    NotFound(String),
}

impl DataLoadError {
    /// The text of the error: what kind it is, then its message.
    pub open spec fn message_text(self) -> Seq<char> {
        match self {
            DataLoadError::NetworkError(message) => "Network error: "@ + message@,
            DataLoadError::ParseError(message) => "Parse error: "@ + message@,
            DataLoadError::NotFound(message) => "Not found: "@ + message@,
        }
    }

    /// The text of the error.
    pub fn message(&self) -> (text: String)
        ensures
            text@ == self.message_text(),
    {
        match self {
            DataLoadError::NetworkError(message) => String::from_str("Network error: ").concat(
                message.as_str(),
            ),
            DataLoadError::ParseError(message) => String::from_str("Parse error: ").concat(
                message.as_str(),
            ),
            DataLoadError::NotFound(message) => String::from_str("Not found: ").concat(
                message.as_str(),
            ),
        }
    }
}

impl LightweightArticle {
    /// The article for list display: every field kept, and no summary yet.
    pub open spec fn of(article: ProcessedArticle) -> LightweightArticle {
        LightweightArticle {
            slug: article.slug,
            title: article.title,
            summary: None,
            metadata: article.metadata,
            file_path: article.file_path,
            outbound_links: article.outbound_links,
            inbound_links: article.inbound_links,
            processed_at: article.processed_at,
        }
    }
}

impl From<ProcessedArticle> for LightweightArticle {
    fn from(article: ProcessedArticle) -> (light: LightweightArticle) {
        LightweightArticle {
            slug: article.slug,
            title: article.title,
            summary: None,
            metadata: article.metadata,
            file_path: article.file_path,
            outbound_links: article.outbound_links,
            inbound_links: article.inbound_links,
            processed_at: article.processed_at,
        }
    }
}

impl vstd::std_specs::convert::FromSpecImpl<ProcessedArticle> for LightweightArticle {
    open spec fn obeys_from_spec() -> bool {
        true
    }

    open spec fn from_spec(article: ProcessedArticle) -> LightweightArticle {
        LightweightArticle::of(article)
    }
}

} // verus!
