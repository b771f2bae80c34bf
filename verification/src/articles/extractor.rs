//! Finding the links in the text of an article.
//!
//! The two link forms are found by regular expressions. What a regular
//! expression matches is taken on trust from the expression library and
//! named here; what is done with the matches is verified. Patterns and
//! texts cross that border as plain strings.

use vstd::prelude::*;
use vstd::string::StringExecFns;
use regex::Regex;
use crate::articles::links::{link_views, ExtractedLink, LinkType, LinkView};
use crate::text::{
    before_first, chars_of, skip_leading, skip_trailing, starts_with, starts_with_text,
    string_from_chars, take_before, trim, trim_matches, trimmed,
};

verus! {

/// Whether a pattern is a regular expression that the expression library
/// compiles.
pub uninterp spec fn regex_compiles(pattern: Seq<char>) -> bool;

/// The matches of a pattern in a text, from left to right without
/// overlap: for each match the texts of its groups, the whole match first.
pub uninterp spec fn regex_captures(pattern: Seq<char>, text: Seq<char>) -> Seq<Seq<Seq<char>>>;

/// A text with every match of a pattern replaced.
pub uninterp spec fn regex_replaced(
    pattern: Seq<char>,
    text: Seq<char>,
    replacement: Seq<char>,
) -> Seq<char>;

/// The lower-case form of a text.
pub uninterp spec fn lowercase_of(text: Seq<char>) -> Seq<char>;

/// Whether a character is a letter or a digit of some script.
pub uninterp spec fn is_alphanumeric(c: char) -> bool;

/// `Regex::new`, then `Regex::captures_iter` with `Captures::iter`: the
/// group texts of every match of a pattern in a text, in order, or nothing
/// where the pattern does not compile. Whether it compiles depends on the
/// pattern alone. A group that took no part in a match gives an empty text.
#[verifier::external_body]
fn captures(pattern: &str, text: &str) -> (found: Option<Vec<Vec<String>>>)
    ensures
        found is Some <==> regex_compiles(pattern@),
        found matches Some(matches) ==> group_texts(matches@) == regex_captures(pattern@, text@),
{
    let regex = Regex::new(pattern).ok()?;
    Some(regex.captures_iter(text).map(|groups| {
        groups.iter().map(|group| group.map_or(String::new(), |m| m.as_str().to_string())).collect()
    }).collect())
}

/// `Regex::new`, then `Regex::replace_all`: the text with every match of a
/// pattern replaced, or nothing where the pattern does not compile.
#[verifier::external_body]
fn replace_all(pattern: &str, text: &str, replacement: &str) -> (replaced: Option<String>)
    ensures
        replaced is Some <==> regex_compiles(pattern@),
        replaced matches Some(result) ==> result@ == regex_replaced(
            pattern@,
            text@,
            replacement@,
        ),
{
    let regex = Regex::new(pattern).ok()?;
    Some(regex.replace_all(text, replacement).into_owned())
}

/// `str::to_lowercase`.
#[verifier::external_body]
fn to_lowercase(text: &str) -> (lowered: String)
    ensures
        lowered@ == lowercase_of(text@),
{
    text.to_lowercase()
}

/// `char::is_alphanumeric`.
#[verifier::external_body]
fn char_is_alphanumeric(c: char) -> (alphanumeric: bool)
    ensures
        alphanumeric == is_alphanumeric(c),
{
    c.is_alphanumeric()
}

/// The texts of the groups of each match.
pub open spec fn group_texts(found: Seq<Vec<String>>) -> Seq<Seq<Seq<char>>> {
    Seq::new(found.len(), |i: int| Seq::new(found[i]@.len(), |j: int| found[i]@[j]@))
}

/// The pattern of a link of the form `[[article-name]]`.
pub const WIKI_PATTERN: &'static str = r"\[\[([^\]]+)\]\]";

/// The pattern of a link of the form `[text](slug)`.
pub const MARKDOWN_PATTERN: &'static str = r"\[([^\]]+)\]\(([^)]+)\)";

/// The pattern of a run of dashes.
pub const DASHES_PATTERN: &'static str = r"-+";

/// The characters that a slug keeps of a title: spaces become dashes, and
/// then only letters, digits, dashes and underscores stay.
pub open spec fn slug_chars(title: Seq<char>) -> Seq<char>
    decreases title.len(),
{
    if title.len() == 0 {
        Seq::empty()
    } else {
        let earlier = slug_chars(title.drop_last());
        let c = if title.last() == ' ' {
            '-'
        } else {
            title.last()
        };
        if is_alphanumeric(c) || c == '-' || c == '_' {
            earlier.push(c)
        } else {
            earlier
        }
    }
}

/// The slug of a lower-case title before runs of dashes are merged: the
/// kept characters of the trimmed title, without dashes at either end.
pub open spec fn slug_stem(lowered: Seq<char>) -> Seq<char> {
    skip_trailing(skip_leading(slug_chars(trimmed(lowered)), '-'), '-')
}

/// The slug of an article title.
pub open spec fn slug_of(title: Seq<char>) -> Seq<char> {
    regex_replaced(DASHES_PATTERN@, slug_stem(lowercase_of(title)), "-"@)
}

/// The target of a link is inside the site: it starts neither with `http`
/// nor with `mailto:`.
pub open spec fn is_internal(target: Seq<char>) -> bool {
    !starts_with_text(target, "http"@) && !starts_with_text(target, "mailto:"@)
}

/// The links of the matches of the wiki pattern: one per match that has an
/// inner group. The target is the slug of what precedes the first bar.
pub open spec fn wiki_links(matches: Seq<Seq<Seq<char>>>) -> Seq<LinkView>
    decreases matches.len(),
{
    if matches.len() == 0 {
        Seq::empty()
    } else {
        let earlier = wiki_links(matches.drop_last());
        let groups = matches.last();
        if groups.len() >= 2 {
            earlier.push(
                LinkView {
                    target_slug: slug_of(trimmed(before_first(groups[1], '|'))),
                    link_type: LinkType::WikiLink,
                    original_text: groups[0],
                },
            )
        } else {
            earlier
        }
    }
}

/// The links of the matches of the markdown pattern: one per match whose
/// target is inside the site.
pub open spec fn markdown_links(matches: Seq<Seq<Seq<char>>>) -> Seq<LinkView>
    decreases matches.len(),
{
    if matches.len() == 0 {
        Seq::empty()
    } else {
        let earlier = markdown_links(matches.drop_last());
        let groups = matches.last();
        if groups.len() >= 3 && is_internal(groups[2]) {
            earlier.push(
                LinkView {
                    target_slug: groups[2],
                    link_type: LinkType::MarkdownLink,
                    original_text: groups[0],
                },
            )
        } else {
            earlier
        }
    }
}

/// Which of the patterns did not compile.
#[derive(Debug, Clone, Copy, PartialEq, Eq, Structural)]
pub enum ExtractorError {
    WikiPattern,
    MarkdownPattern,
    DashesPattern,
}

impl ExtractorError {
    /// The text of the error.
    pub fn message(&self) -> (text: String)
        ensures
            text@ == (match *self {
                ExtractorError::WikiPattern => "Failed to compile wiki link regex"@,
                ExtractorError::MarkdownPattern => "Failed to compile markdown link regex"@,
                ExtractorError::DashesPattern => "Failed to compile dash run regex"@,
            }),
    {
        match self {
            ExtractorError::WikiPattern => String::from_str("Failed to compile wiki link regex"),
            ExtractorError::MarkdownPattern => String::from_str(
                "Failed to compile markdown link regex",
            ),
            ExtractorError::DashesPattern => String::from_str("Failed to compile dash run regex"),
        }
    }
}

/// Finds the links in article text.
///
/// An extractor is made once its patterns are known to compile; it holds
/// nothing else.
pub struct LinkExtractor {
    checked: (),
}

impl LinkExtractor {
    /// The invariant of the extractor: each of its patterns compiles.
    pub closed spec fn wf(&self) -> bool {
        &&& regex_compiles(WIKI_PATTERN@)
        &&& regex_compiles(MARKDOWN_PATTERN@)
        &&& regex_compiles(DASHES_PATTERN@)
    }

    /// The first pattern that does not compile, if any.
    pub open spec fn first_failure() -> Option<ExtractorError> {
        if !regex_compiles(WIKI_PATTERN@) {
            Some(ExtractorError::WikiPattern)
        } else if !regex_compiles(MARKDOWN_PATTERN@) {
            Some(ExtractorError::MarkdownPattern)
        } else if !regex_compiles(DASHES_PATTERN@) {
            Some(ExtractorError::DashesPattern)
        } else {
            None
        }
    }

    /// Checks that the patterns compile. Fails with the first pattern that
    /// does not.
    pub fn new() -> (result: Result<Self, ExtractorError>)
        ensures
            result is Ok <==> Self::first_failure() is None,
            result matches Ok(extractor) ==> extractor.wf(),
            result matches Err(error) ==> Self::first_failure() == Some(error),
    {
        if captures(WIKI_PATTERN, "").is_none() {
            return Err(ExtractorError::WikiPattern);
        }
        if captures(MARKDOWN_PATTERN, "").is_none() {
            return Err(ExtractorError::MarkdownPattern);
        }
        if captures(DASHES_PATTERN, "").is_none() {
            return Err(ExtractorError::DashesPattern);
        }
        Ok(LinkExtractor { checked: () })
    }

    /// The slug of a lower-case title before runs of dashes are merged.
    pub fn slug_stem_of(lowered: &str) -> (stem: String)
        ensures
            stem@ == slug_stem(lowered@),
    {
        let title = chars_of(trim(lowered));
        let mut kept: Vec<char> = Vec::new();
        let mut i: usize = 0;
        assert(title@.take(0) =~= Seq::<char>::empty());
        while i < title.len()
            invariant
                i <= title.len(),
                kept@ == slug_chars(title@.take(i as int)),
            decreases title.len() - i,
        {
            proof {
                assert(title@.take(i + 1).drop_last() =~= title@.take(i as int));
            }
            let c = if title[i] == ' ' {
                '-'
            } else {
                title[i]
            };
            if char_is_alphanumeric(c) || c == '-' || c == '_' {
                kept.push(c);
            }
            i += 1;
        }
        assert(title@.take(i as int) =~= title@);
        let joined = string_from_chars(&kept);
        String::from_str(trim_matches(joined.as_str(), '-'))
    }

    /// The slug of an article title: lower case, trimmed, spaces as
    /// dashes, only letters, digits, dashes and underscores, no dash at
    /// either end, and runs of dashes merged into one.
    pub fn generate_slug_from_title(&self, title: &str) -> (slug: String)
        requires
            self.wf(),
        ensures
            slug@ == slug_of(title@),
    {
        let lowered = to_lowercase(title);
        let stem = Self::slug_stem_of(lowered.as_str());
        match replace_all(DASHES_PATTERN, stem.as_str(), "-") {
            Some(slug) => slug,
            None => stem,
        }
    }

    /// The links of the matches of the markdown pattern.
    pub fn markdown_links_from(matches: &Vec<Vec<String>>) -> (links: Vec<ExtractedLink>)
        ensures
            link_views(links@) == markdown_links(group_texts(matches@)),
    {
        let ghost texts = group_texts(matches@);
        let mut links: Vec<ExtractedLink> = Vec::new();
        let mut i: usize = 0;
        assert(texts.take(0) =~= Seq::<Seq<Seq<char>>>::empty());
        assert(link_views(links@) =~= markdown_links(texts.take(0)));
        while i < matches.len()
            invariant
                i <= matches.len(),
                texts == group_texts(matches@),
                link_views(links@) == markdown_links(texts.take(i as int)),
            decreases matches.len() - i,
        {
            proof {
                assert(texts.take(i + 1).drop_last() =~= texts.take(i as int));
                assert(texts.take(i + 1).last() == texts[i as int]);
            }
            let groups = &matches[i];
            if groups.len() >= 3 {
                let target = groups[2].as_str();
                if !starts_with(target, "http") && !starts_with(target, "mailto:") {
                    let ghost before = link_views(links@);
                    let link = ExtractedLink {
                        target_slug: String::from_str(target),
                        link_type: LinkType::MarkdownLink,
                        original_text: groups[0].clone(),
                    };
                    links.push(link);
                    assert(link_views(links@) =~= before.push(link@));
                }
            }
            i += 1;
        }
        assert(texts.take(i as int) =~= texts);
        links
    }

    /// The links of the matches of the wiki pattern.
    pub fn wiki_links_from(&self, matches: &Vec<Vec<String>>) -> (links: Vec<ExtractedLink>)
        requires
            self.wf(),
        ensures
            link_views(links@) == wiki_links(group_texts(matches@)),
    {
        let ghost texts = group_texts(matches@);
        let mut links: Vec<ExtractedLink> = Vec::new();
        let mut i: usize = 0;
        assert(texts.take(0) =~= Seq::<Seq<Seq<char>>>::empty());
        assert(link_views(links@) =~= wiki_links(texts.take(0)));
        while i < matches.len()
            invariant
                i <= matches.len(),
                self.wf(),
                texts == group_texts(matches@),
                link_views(links@) == wiki_links(texts.take(i as int)),
            decreases matches.len() - i,
        {
            proof {
                assert(texts.take(i + 1).drop_last() =~= texts.take(i as int));
                assert(texts.take(i + 1).last() == texts[i as int]);
            }
            let groups = &matches[i];
            if groups.len() >= 2 {
                let link_target = trim(take_before(groups[1].as_str(), '|'));
                let ghost before = link_views(links@);
                let link = ExtractedLink {
                    target_slug: self.generate_slug_from_title(link_target),
                    link_type: LinkType::WikiLink,
                    original_text: groups[0].clone(),
                };
                links.push(link);
                assert(link_views(links@) =~= before.push(link@));
            }
            i += 1;
        }
        assert(texts.take(i as int) =~= texts);
        links
    }

    /// The links of a text, by an extractor made for the occasion. Fails
    /// with the first pattern that does not compile.
    pub fn extract(content: &str) -> (result: Result<Vec<ExtractedLink>, ExtractorError>)
        ensures
            result is Ok <==> Self::first_failure() is None,
            result matches Ok(links) ==> link_views(links@) == wiki_links(
                regex_captures(WIKI_PATTERN@, content@),
            ) + markdown_links(regex_captures(MARKDOWN_PATTERN@, content@)),
            result matches Err(error) ==> Self::first_failure() == Some(error),
    {
        match Self::new() {
            Ok(extractor) => Ok(extractor.extract_links(content)),
            Err(error) => Err(error),
        }
    }

    /// The links of a text: first those of the form `[[article-name]]`,
    /// then those of the form `[text](slug)` whose target is inside the
    /// site, each group in the order of the text.
    pub fn extract_links(&self, content: &str) -> (links: Vec<ExtractedLink>)
        requires
            self.wf(),
        ensures
            link_views(links@) == wiki_links(regex_captures(WIKI_PATTERN@, content@))
                + markdown_links(regex_captures(MARKDOWN_PATTERN@, content@)),
    {
        let wiki_matches = match captures(WIKI_PATTERN, content) {
            Some(matches) => matches,
            None => Vec::new(),
        };
        let mut links = self.wiki_links_from(&wiki_matches);
        let markdown_matches = match captures(MARKDOWN_PATTERN, content) {
            Some(matches) => matches,
            None => Vec::new(),
        };
        let mut markdown = Self::markdown_links_from(&markdown_matches);
        let ghost first = link_views(links@);
        let ghost second = link_views(markdown@);
        links.append(&mut markdown);
        assert(link_views(links@) =~= first + second);
        links
    }
}

} // verus!
