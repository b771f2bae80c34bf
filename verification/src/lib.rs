//! Graph layout bookkeeping and site configuration for a portfolio whose
//! articles are drawn as a force-directed node graph.

pub mod articles;
pub mod config;
pub mod data;
pub mod graph;
pub mod physics;
pub mod styles;
pub mod text;

pub use articles::{
    ArticleMetadata, ExtractedLink, FrontMatterParser, LinkExtractor, LinkType, LinkValidator,
    ProcessedArticleRef, ValidationError, ValidationErrorType, ValidationReport,
    ValidationReportFormatter, ValidationSummary,
};
