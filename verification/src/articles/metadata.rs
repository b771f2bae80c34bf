//! The metadata at the head of an article, and the rules it must meet.

use vstd::prelude::*;
use vstd::string::StringExecFns;
use crate::text::{decimal, format_usize, is_blank, str_is_blank};

verus! {

/// The metadata of an article.
#[derive(Debug, Clone)]
pub struct ArticleMetadata {
    pub title: String,
    pub home_display: bool,
    pub category: Option<String>,
    pub importance: u8,
    pub related_articles: Vec<String>,
    pub tags: Vec<String>,
    pub created_at: Option<String>,
    pub updated_at: Option<String>,
    pub author_image: Option<String>,
}

/// The importance of an article that states none.
pub fn default_importance() -> (importance: u8)
    ensures
        importance == 3,
{
    3
}

impl Default for ArticleMetadata {
    fn default() -> (metadata: ArticleMetadata)
        ensures
            metadata.title@ == "Untitled"@,
            !metadata.home_display,
            metadata.category is None,
            metadata.importance == 3,
            metadata.related_articles@.len() == 0,
            metadata.tags@.len() == 0,
            metadata.created_at is None,
            metadata.updated_at is None,
            metadata.author_image is None,
    {
        ArticleMetadata {
            title: String::from_str("Untitled"),
            home_display: false,
            category: None,
            importance: default_importance(),
            related_articles: Vec::new(),
            tags: Vec::new(),
            created_at: None,
            updated_at: None,
            author_image: None,
        }
    }
}

/// The rule that metadata break.
#[derive(Debug, Clone, Copy, PartialEq, Eq, Structural)]
pub enum MetadataError {
    /// The importance is not between 1 and 5.
    ImportanceOutOfRange(u8),
    /// The title is empty or all white space.
    EmptyTitle,
    /// The creation time is not an RFC 3339 date and time.
    InvalidCreatedAt,
    /// The update time is not an RFC 3339 date and time.
    InvalidUpdatedAt,
}

/// Whether a text is a date and time in the RFC 3339 format, as the date
/// library parses it.
pub uninterp spec fn is_rfc3339(text: Seq<char>) -> bool;

/// `chrono::DateTime::parse_from_rfc3339`: whether the parse succeeds. The
/// result depends on the text alone.
#[verifier::external_body]
fn parses_as_rfc3339(text: &str) -> (valid: bool)
    ensures
        valid == is_rfc3339(text@),
{
    chrono::DateTime::parse_from_rfc3339(text).is_ok()
}

/// Checks the metadata of articles.
pub struct FrontMatterParser;

impl FrontMatterParser {
    /// The first rule that the metadata break, given whether each of the
    /// two times, where present, is well formed. The rules are checked in
    /// this order: importance, title, creation time, update time.
    pub open spec fn verdict(
        metadata: ArticleMetadata,
        created_valid: bool,
        updated_valid: bool,
    ) -> Result<(), MetadataError> {
        if metadata.importance < 1 || metadata.importance > 5 {
            Err(MetadataError::ImportanceOutOfRange(metadata.importance))
        } else if is_blank(metadata.title@) {
            Err(MetadataError::EmptyTitle)
        } else if metadata.created_at is Some && !created_valid {
            Err(MetadataError::InvalidCreatedAt)
        } else if metadata.updated_at is Some && !updated_valid {
            Err(MetadataError::InvalidUpdatedAt)
        } else {
            Ok(())
        }
    }

    /// Whether a time that may be absent is well formed; an absent time is.
    pub open spec fn time_valid(time: Option<String>) -> bool {
        match time {
            Some(text) => is_rfc3339(text@),
            None => true,
        }
    }

    /// Judges metadata whose two times have been examined already.
    pub fn judge_metadata(metadata: &ArticleMetadata, created_valid: bool, updated_valid: bool) -> (result: Result<(), MetadataError>)
        ensures
            result == Self::verdict(*metadata, created_valid, updated_valid),
    {
        if metadata.importance < 1 || metadata.importance > 5 {
            return Err(MetadataError::ImportanceOutOfRange(metadata.importance));
        }
        if str_is_blank(metadata.title.as_str()) {
            return Err(MetadataError::EmptyTitle);
        }
        if metadata.created_at.is_some() && !created_valid {
            return Err(MetadataError::InvalidCreatedAt);
        }
        if metadata.updated_at.is_some() && !updated_valid {
            return Err(MetadataError::InvalidUpdatedAt);
        }
        Ok(())
    }

    /// Validates metadata: the importance lies between 1 and 5, the title
    /// is not blank, and each time that is present is an RFC 3339 date and
    /// time.
    pub fn validate_metadata(metadata: &ArticleMetadata) -> (result: Result<(), MetadataError>)
        ensures
            result == Self::verdict(
                *metadata,
                Self::time_valid(metadata.created_at),
                Self::time_valid(metadata.updated_at),
            ),
    {
        let created_valid = match &metadata.created_at {
            Some(text) => parses_as_rfc3339(text.as_str()),
            None => true,
        };
        let updated_valid = match &metadata.updated_at {
            Some(text) => parses_as_rfc3339(text.as_str()),
            None => true,
        };
        Self::judge_metadata(metadata, created_valid, updated_valid)
    }
}

impl MetadataError {
    /// The text of the error.
    pub fn message(&self) -> (text: String)
        ensures
            text@ == (match *self {
                MetadataError::ImportanceOutOfRange(value) => "Importance must be between 1 and 5, got: "@
                    + decimal(value as nat),
                MetadataError::EmptyTitle => "Title cannot be empty"@,
                MetadataError::InvalidCreatedAt => "Invalid created_at datetime format"@,
                MetadataError::InvalidUpdatedAt => "Invalid updated_at datetime format"@,
            }),
    {
        match self {
            MetadataError::ImportanceOutOfRange(value) => String::from_str(
                "Importance must be between 1 and 5, got: ",
            ).concat(format_usize(*value as usize).as_str()),
            MetadataError::EmptyTitle => String::from_str("Title cannot be empty"),
            MetadataError::InvalidCreatedAt => String::from_str(
                "Invalid created_at datetime format",
            ),
            MetadataError::InvalidUpdatedAt => String::from_str(
                "Invalid updated_at datetime format",
            ),
        }
    }
}

} // verus!
