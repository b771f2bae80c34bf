//! Article data as the site loads it, and the cache that holds it.

pub mod cache;
pub mod loading;
pub mod markdown;
pub mod parsers;
pub mod types;

pub use markdown::MarkdownProcessor;
pub use parsers::{FrontMatterParser, SummaryExtractor};
pub use cache::{CacheStats, DataCache, StringTable};
pub use types::{
    ArticlesData, DataLoadError, LightweightArticle, LinkType, ProcessedArticle, ProcessedLink,
    ProcessedMetadata,
};
