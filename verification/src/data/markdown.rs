//! Rendering the text of an article as HTML.

use vstd::prelude::*;

verus! {

/// The HTML that a markdown text renders to.
pub uninterp spec fn rendered_html(markdown: Seq<char>) -> Seq<char>;

/// `pulldown_cmark::Parser::new` and `pulldown_cmark::html::push_html`:
/// the HTML of a markdown text, which depends on the text alone.
#[verifier::external_body]
fn push_html(markdown: &str) -> (html: String)
    ensures
        html@ == rendered_html(markdown@),
{
    let parser = pulldown_cmark::Parser::new(markdown);
    let mut html_output = String::new();
    pulldown_cmark::html::push_html(&mut html_output, parser);
    html_output
}

/// Renders markdown.
pub struct MarkdownProcessor;

impl MarkdownProcessor {
    /// The HTML of an article: of its text without front matter.
    pub fn process_to_html(raw_content: &str) -> (html: String)
        ensures
            html@ == rendered_html(raw_content@),
    {
        push_html(raw_content)
    }
}

} // verus!
