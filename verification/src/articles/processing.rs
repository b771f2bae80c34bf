//! Turning the parts of one article file into the form that the link
//! validator takes.

use vstd::prelude::*;
use vstd::string::StringExecFns;
use crate::articles::extractor::{
    markdown_links, regex_captures, wiki_links, ExtractorError, LinkExtractor, MARKDOWN_PATTERN,
    WIKI_PATTERN,
};
use crate::articles::links::link_views;
use crate::articles::metadata::{ArticleMetadata, FrontMatterParser, MetadataError};
use crate::articles::validator::ProcessedArticleRef;
use crate::text::contains_text;

verus! {

/// `Path::file_stem` of a path given as text, where the stem is text too.
/// Which part of the path the stem is depends on what the platform takes
/// for a separator. On every platform a stem is the name of the last
/// component of the path or the part of that name before its last dot, so
/// it is a piece of the path, and it is not empty.
#[verifier::external_body]
fn file_stem(file_path: &str) -> (found: Option<String>)
    ensures
        found matches Some(stem) ==> stem@.len() > 0 && contains_text(file_path@, stem@),
{
    std::path::Path::new(file_path).file_stem().and_then(|stem| stem.to_str()).map(|stem| stem.to_string())
}

/// Why an article could not be made ready.
#[derive(Debug, Clone, Copy, PartialEq, Eq, Structural)]
pub enum ProcessingError {
    /// A link pattern does not compile.
    Pattern(ExtractorError),
    /// The metadata break a rule.
    Metadata(MetadataError),
}

/// Makes articles ready for the link validator.
pub struct ArticleProcessor {
    link_extractor: LinkExtractor,
}

impl ArticleProcessor {
    /// The invariant of the processor: its extractor is well formed.
    pub closed spec fn wf(&self) -> bool {
        self.link_extractor.wf()
    }

    /// A processor. Fails where a link pattern does not compile.
    pub fn new() -> (result: Result<Self, ExtractorError>)
        ensures
            result is Ok <==> LinkExtractor::first_failure() is None,
            result matches Ok(processor) ==> processor.wf(),
            result matches Err(error) ==> LinkExtractor::first_failure() == Some(error),
    {
        match LinkExtractor::new() {
            Ok(link_extractor) => Ok(ArticleProcessor { link_extractor }),
            Err(error) => Err(error),
        }
    }

    /// The slug for a file stem: the stem, or `untitled` where the file
    /// has none.
    pub fn slug_or_untitled(stem: Option<String>) -> (slug: String)
        ensures
            slug@ == (match stem {
                Some(text) => text@,
                None => "untitled"@,
            }),
    {
        match stem {
            Some(text) => text,
            None => String::from_str("untitled"),
        }
    }

    /// The slug of an article file: the stem of its name, or `untitled`
    /// where the path names no file. Which part of the path the stem is
    /// depends on the platform's separators; it is always a piece of the
    /// path that is not empty. The slug of the empty path is `untitled`.
    pub fn generate_slug_from_path(file_path: &str) -> (slug: String)
        ensures
            slug@ == "untitled"@ || (slug@.len() > 0 && contains_text(file_path@, slug@)),
            file_path@.len() == 0 ==> slug@ == "untitled"@,
    {
        let slug = Self::slug_or_untitled(file_stem(file_path));
        proof {
            if file_path@.len() == 0 && slug@ != "untitled"@ {
                let at = choose|at: int| crate::text::occurs_at(file_path@, slug@, at);
                assert(at + slug@.len() <= file_path@.len());
            }
        }
        slug
    }

    /// Puts an article together from its slug, its metadata and its text
    /// without front matter. Fails where the metadata break a rule. The
    /// inbound links are left empty; they are not known from one file.
    pub fn assemble(&self, slug: String, metadata: ArticleMetadata, markdown_content: &str) -> (result: Result<ProcessedArticleRef, MetadataError>)
        requires
            self.wf(),
        ensures
            match FrontMatterParser::verdict(
                metadata,
                FrontMatterParser::time_valid(metadata.created_at),
                FrontMatterParser::time_valid(metadata.updated_at),
            ) {
                Ok(_) => result matches Ok(article) && article.slug == slug && article.title@
                    == metadata.title@ && article.metadata == metadata && article.inbound_links@.len()
                    == 0 && link_views(article.outbound_links@) == wiki_links(
                    regex_captures(WIKI_PATTERN@, markdown_content@),
                ) + markdown_links(regex_captures(MARKDOWN_PATTERN@, markdown_content@)),
                Err(error) => result == Err::<ProcessedArticleRef, MetadataError>(error),
            },
    {
        match FrontMatterParser::validate_metadata(&metadata) {
            Ok(_) => {},
            Err(error) => {
                return Err(error);
            },
        }
        let outbound_links = self.link_extractor.extract_links(markdown_content);
        let title = metadata.title.clone();
        Ok(ProcessedArticleRef { slug, title, metadata, outbound_links, inbound_links: Vec::new() })
    }

    /// Puts an article together by a processor made for the occasion.
    /// Fails with the pattern that does not compile, or else with the rule
    /// that the metadata break.
    pub fn process_parts(slug: String, metadata: ArticleMetadata, markdown_content: &str) -> (result: Result<ProcessedArticleRef, ProcessingError>)
        ensures
            match LinkExtractor::first_failure() {
                Some(pattern) => result == Err::<ProcessedArticleRef, ProcessingError>(
                    ProcessingError::Pattern(pattern),
                ),
                None => match FrontMatterParser::verdict(
                    metadata,
                    FrontMatterParser::time_valid(metadata.created_at),
                    FrontMatterParser::time_valid(metadata.updated_at),
                ) {
                    Ok(_) => result matches Ok(article) && article.slug == slug && article.title@
                        == metadata.title@ && article.metadata == metadata
                        && article.inbound_links@.len() == 0 && link_views(article.outbound_links@)
                        == wiki_links(regex_captures(WIKI_PATTERN@, markdown_content@))
                        + markdown_links(regex_captures(MARKDOWN_PATTERN@, markdown_content@)),
                    Err(rule) => result == Err::<ProcessedArticleRef, ProcessingError>(
                        ProcessingError::Metadata(rule),
                    ),
                },
            },
    {
        let processor = match Self::new() {
            Ok(processor) => processor,
            Err(pattern) => {
                return Err(ProcessingError::Pattern(pattern));
            },
        };
        match processor.assemble(slug, metadata, markdown_content) {
            Ok(article) => Ok(article),
            Err(rule) => Err(ProcessingError::Metadata(rule)),
        }
    }
}

} // verus!
