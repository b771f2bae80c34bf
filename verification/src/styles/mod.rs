//! Inline style text for the pages of the site.

pub mod article;
pub mod common;
pub mod theme;

pub use article::ArticleStyles;
pub use common::CommonStyles;
pub use theme::Theme;
