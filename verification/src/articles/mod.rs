//! Articles as the link validator sees them: metadata, the links between
//! them, and the report on links that lead nowhere.

pub mod extractor;
pub mod links;
pub mod metadata;
pub mod processing;
pub mod report;
pub mod validator;

pub use extractor::{ExtractorError, LinkExtractor};
pub use links::{ExtractedLink, LinkType};
pub use metadata::{default_importance, ArticleMetadata, FrontMatterParser, MetadataError};
pub use validator::{
    ArticleStats, LinkValidator, ProcessedArticleRef, ValidationError, ValidationErrorType,
    ValidationReport, ValidationSummary, ValidationWarning, ValidationWarningType,
};
pub use report::ValidationReportFormatter;
pub use processing::{ArticleProcessor, ProcessingError};
