//! Links found in the text of an article.

use vstd::prelude::*;

verus! {

/// How a link was written.
#[derive(Debug, Clone, Copy, PartialEq, Eq, Structural)]
pub enum LinkType {
    /// `[[article-name]]`
    WikiLink,
    /// `[text](slug)`
    MarkdownLink,
}

/// A link found in the text of an article.
#[derive(Debug, Clone)]
pub struct ExtractedLink {
    pub target_slug: String,
    pub link_type: LinkType,
    pub original_text: String,
}

/// A link with its texts as character sequences.
pub struct LinkView {
    pub target_slug: Seq<char>,
    pub link_type: LinkType,
    pub original_text: Seq<char>,
}

impl View for ExtractedLink {
    type V = LinkView;

    open spec fn view(&self) -> LinkView {
        LinkView {
            target_slug: self.target_slug@,
            link_type: self.link_type,
            original_text: self.original_text@,
        }
    }
}

/// The views of a sequence of links.
pub open spec fn link_views(links: Seq<ExtractedLink>) -> Seq<LinkView> {
    Seq::new(links.len(), |i: int| links[i]@)
}

} // verus!
