//! Styles of the containers that several pages use.

use vstd::prelude::*;
use vstd::string::StringExecFns;
use crate::styles::theme::Theme;

verus! {

/// Styles of the common containers.
pub struct CommonStyles;

impl CommonStyles {
    /// A container that centres a loading indicator on the full height of
    /// the window.
    pub fn loading_container() -> (style: String)
        ensures
            style@
                == "display: flex; justify-content: center; align-items: center; height: 100vh; background: "@
                + Theme::BACKGROUND_PRIMARY@ + ";"@,
    {
        String::from_str(
            "display: flex; justify-content: center; align-items: center; height: 100vh; background: ",
        ).concat(Theme::BACKGROUND_PRIMARY).concat(";")
    }

    /// A container that centres an error message, in the error colour.
    pub fn error_container() -> (style: String)
        ensures
            style@
                == "display: flex; justify-content: center; align-items: center; height: 100vh; background: "@
                + Theme::BACKGROUND_PRIMARY@ + "; color: "@ + Theme::ERROR_COLOR@ + ";"@,
    {
        String::from_str(
            "display: flex; justify-content: center; align-items: center; height: 100vh; background: ",
        ).concat(Theme::BACKGROUND_PRIMARY).concat("; color: ").concat(Theme::ERROR_COLOR).concat(
            ";",
        )
    }

    /// The container of a page's main content.
    pub fn main_container() -> (style: String)
        ensures
            style@ == "padding: 16px; background: "@ + Theme::BACKGROUND_PRIMARY@ + "; color: "@
                + Theme::TEXT_PRIMARY@ + "; min-height: 100vh;"@,
    {
        String::from_str("padding: 16px; background: ").concat(Theme::BACKGROUND_PRIMARY).concat(
            "; color: ",
        ).concat(Theme::TEXT_PRIMARY).concat("; min-height: 100vh;")
    }

    /// Centred text.
    pub fn centered_text() -> (style: &'static str)
        ensures
            style@ == "text-align: center;"@,
    {
        "text-align: center;"
    }

    /// A flex container whose items are `gap` apart.
    pub fn flex_container_with_gap(gap: &str) -> (style: String)
        ensures
            style@ == "display: flex; gap: "@ + gap@ + ";"@,
    {
        String::from_str("display: flex; gap: ").concat(gap).concat(";")
    }

    /// A container that fills its parent.
    pub fn full_size() -> (style: &'static str)
        ensures
            style@ == "width: 100%; height: 100%;"@,
    {
        "width: 100%; height: 100%;"
    }
}

} // verus!
