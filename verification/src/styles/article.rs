//! Styles of the article pages.

use vstd::prelude::*;
use vstd::string::StringExecFns;
use crate::styles::theme::Theme;

verus! {

/// Styles of the article view and the article index.
pub struct ArticleStyles;

impl ArticleStyles {
    /// The style sheet of rendered article text.
    pub const MARKDOWN_STYLE_SHEET: &'static str = r#"
        .markdown-body { 
            line-height: 1.6; 
            color: #e0e0e0; 
        }
        .markdown-body h1, .markdown-body h2, .markdown-body h3 { 
            margin-top: 24px; 
            margin-bottom: 16px; 
            color: #e0e0e0; 
        }
        .markdown-body p { 
            margin-bottom: 16px; 
            color: #e0e0e0; 
        }
        .markdown-body ul, .markdown-body ol { 
            margin-bottom: 16px; 
            padding-left: 30px; 
            color: #e0e0e0; 
        }
        .markdown-body code { 
            background: #2d3748; 
            color: #e0e0e0; 
            padding: 2px 4px; 
            border-radius: 3px; 
            font-size: 85%; 
        }
        .markdown-body pre { 
            background: #2d3748; 
            color: #e0e0e0; 
            padding: 16px; 
            border-radius: 6px; 
            overflow: auto; 
        }
        .markdown-body blockquote { 
            border-left: 4px solid #66b3ff; 
            padding-left: 16px; 
            color: #aaa; 
            margin: 0 0 16px 0; 
        }
        .markdown-body a { 
            color: #66b3ff; 
            text-decoration: none; 
        }
        .markdown-body a:hover { 
            color: #99ccff; 
            text-decoration: underline; 
        }
        "#;

    /// The style sheet of rendered article text.
    pub fn base_styles() -> (sheet: &'static str)
        ensures
            sheet@ == ArticleStyles::MARKDOWN_STYLE_SHEET@,
    {
        ArticleStyles::MARKDOWN_STYLE_SHEET
    }

    /// The container that holds both the header and the text of an article.
    pub fn unified_article_container() -> (style: String)
        ensures
            style@ == "padding: 16px; max-width: 800px; margin: 0 auto; background: "@
                + Theme::BACKGROUND_PRIMARY@ + "; min-height: 100vh;"@,
    {
        String::from_str("padding: 16px; max-width: 800px; margin: 0 auto; background: ").concat(
            Theme::BACKGROUND_PRIMARY,
        ).concat("; min-height: 100vh;")
    }

    /// The header of an article, inside the article container.
    pub fn integrated_article_header() -> (style: String)
        ensures
            style@
                == "margin-bottom: 32px; padding-bottom: 16px; border-bottom: 1px solid #444; display: flex; justify-content: space-between; align-items: flex-start; gap: 20px;"@,
    {
        String::from_str(
            "margin-bottom: 32px; padding-bottom: 16px; border-bottom: 1px solid #444; display: flex; justify-content: space-between; align-items: flex-start; gap: 20px;",
        )
    }

    /// The title of an article, in the primary text colour.
    pub fn integrated_article_title() -> (style: String)
        ensures
            style@ == "margin: 0 0 16px 0; font-size: 2.5em; color: "@ + Theme::TEXT_PRIMARY@
                + "; font-weight: bold;"@,
    {
        String::from_str("margin: 0 0 16px 0; font-size: 2.5em; color: ").concat(
            Theme::TEXT_PRIMARY,
        ).concat("; font-weight: bold;")
    }

    /// The line of metadata under the title, in the secondary text colour.
    pub fn integrated_article_meta() -> (style: String)
        ensures
            style@ == "font-size: 14px; color: "@ + Theme::TEXT_SECONDARY@
                + "; display: flex; gap: 16px; flex-wrap: wrap;"@,
    {
        String::from_str("font-size: 14px; color: ").concat(Theme::TEXT_SECONDARY).concat(
            "; display: flex; gap: 16px; flex-wrap: wrap;",
        )
    }

    /// The box around the author image.
    pub fn author_image_container() -> (style: &'static str)
        ensures
            style@ == "flex-shrink: 0; display: flex; align-items: stretch;"@,
    {
        "flex-shrink: 0; display: flex; align-items: stretch;"
    }

    /// The author image.
    pub fn author_image() -> (style: &'static str)
        ensures
            style@ == "height: 120px; object-fit: cover;"@,
    {
        "height: 120px; object-fit: cover;"
    }

    /// One tag.
    pub fn tag_style() -> (style: &'static str)
        ensures
            style@
                == "background: #4a5568; color: #e0e0e0; padding: 2px 6px; border-radius: 3px; font-size: 12px;"@,
    {
        "background: #4a5568; color: #e0e0e0; padding: 2px 6px; border-radius: 3px; font-size: 12px;"
    }

    /// The footer that lists related articles.
    pub fn related_articles_footer() -> (style: &'static str)
        ensures
            style@ == "margin-top: 48px; padding-top: 24px; border-top: 1px solid #444;"@,
    {
        "margin-top: 48px; padding-top: 24px; border-top: 1px solid #444;"
    }

    /// The list of related articles.
    pub fn related_articles_list() -> (style: &'static str)
        ensures
            style@ == "list-style: none; padding: 0;"@,
    {
        "list-style: none; padding: 0;"
    }

    /// One related article of the list.
    pub fn related_articles_item() -> (style: &'static str)
        ensures
            style@ == "margin-bottom: 8px;"@,
    {
        "margin-bottom: 8px;"
    }

    /// The earlier name of `unified_article_container`.
    pub fn article_container() -> (style: String)
        ensures
            style@ == "padding: 16px; max-width: 800px; margin: 0 auto; background: "@
                + Theme::BACKGROUND_PRIMARY@ + "; min-height: 100vh;"@,
    {
        Self::unified_article_container()
    }

    /// The earlier name of `integrated_article_header`.
    pub fn article_header() -> (style: String)
        ensures
            style@
                == "margin-bottom: 32px; padding-bottom: 16px; border-bottom: 1px solid #444; display: flex; justify-content: space-between; align-items: flex-start; gap: 20px;"@,
    {
        Self::integrated_article_header()
    }

    /// The earlier name of `integrated_article_title`.
    pub fn article_title() -> (style: String)
        ensures
            style@ == "margin: 0 0 16px 0; font-size: 2.5em; color: "@ + Theme::TEXT_PRIMARY@
                + "; font-weight: bold;"@,
    {
        Self::integrated_article_title()
    }

    /// The earlier name of `integrated_article_meta`.
    pub fn article_meta() -> (style: String)
        ensures
            style@ == "font-size: 14px; color: "@ + Theme::TEXT_SECONDARY@
                + "; display: flex; gap: 16px; flex-wrap: wrap;"@,
    {
        Self::integrated_article_meta()
    }

    /// The container of the article index.
    pub fn index_container() -> (style: String)
        ensures
            style@ == "padding: 16px; background: "@ + Theme::BACKGROUND_PRIMARY@ + "; color: "@
                + Theme::TEXT_PRIMARY@ + "; min-height: 100vh;"@,
    {
        String::from_str("padding: 16px; background: ").concat(Theme::BACKGROUND_PRIMARY).concat(
            "; color: ",
        ).concat(Theme::TEXT_PRIMARY).concat("; min-height: 100vh;")
    }

    /// One entry of the article index.
    pub fn list_item() -> (style: &'static str)
        ensures
            style@ == "margin-bottom: 20px; padding: 16px; border-radius: 8px;"@,
    {
        "margin-bottom: 20px; padding: 16px; border-radius: 8px;"
    }
}

} // verus!
