//! The colours, measures and timings that every page shares.

use vstd::prelude::*;
use vstd::string::StringExecFns;

verus! {

/// The theme of the site.
pub struct Theme;

impl Theme {
    pub const BACKGROUND_PRIMARY: &'static str = "#081D35";

    pub const TEXT_PRIMARY: &'static str = "#e0e0e0";

    pub const TEXT_SECONDARY: &'static str = "#aaa";

    pub const ACCENT_BLUE: &'static str = "#66b3ff";

    pub const ACCENT_BLUE_HOVER: &'static str = "#99ccff";

    pub const ERROR_COLOR: &'static str = "#ff6b6b";

    pub const SUCCESS_COLOR: &'static str = "#4CAF50";

    pub const NODE_DEFAULT: &'static str = "slateblue";

    pub const NODE_BORDER: &'static str = "rgba(0,0,0,0.2)";

    pub const CONTAINER_MAX_WIDTH: &'static str = "1000px";

    pub const BORDER_RADIUS: &'static str = "8px";

    pub const BORDER_RADIUS_SMALL: &'static str = "4px";

    pub const TRANSITION_FAST: &'static str = "0.2s ease-in-out";

    pub const TRANSITION_NORMAL: &'static str = "0.3s ease-in-out";

    /// The style sheet that every page starts from.
    pub const BASE_STYLE_SHEET: &'static str = r#"
        html, body {
            background: var(--bg-color, #081D35);
            color: var(--text-color, #e0e0e0);
            margin: 0;
            padding: 0;
            font-family: -apple-system, BlinkMacSystemFont, 'Segoe UI', Roboto, sans-serif;
        }
        
        :root {
            --bg-color: #081D35;
            --text-color: #e0e0e0;
            --link-color: #66b3ff;
            --meta-color: #aaa;
            --error-color: #ff6b6b;
            --success-color: #4CAF50;
        }
        
        @media (prefers-color-scheme: light) {
            :root {
                --bg-color: #ffffff;
                --text-color: #333333;
                --link-color: #007bff;
                --meta-color: #666;
            }
        }
        
        @keyframes spin {
            0% { transform: rotate(0deg); }
            100% { transform: rotate(360deg); }
        }
        "#;

    /// The style sheet that every page starts from.
    pub fn base_styles() -> (sheet: &'static str)
        ensures
            sheet@ == Theme::BASE_STYLE_SHEET@,
    {
        Theme::BASE_STYLE_SHEET
    }

    /// The style of the loading spinner, ringed in the accent colour.
    pub fn loading_spinner_style() -> (style: String)
        ensures
            style@ == "border: 4px solid #444; border-top: 4px solid "@ + Theme::ACCENT_BLUE@
                + "; border-radius: 50%; width: 40px; height: 40px; animation: spin 2s linear infinite; margin: 0 auto;"@,
    {
        String::from_str("border: 4px solid #444; border-top: 4px solid ").concat(
            Theme::ACCENT_BLUE,
        ).concat(
            "; border-radius: 50%; width: 40px; height: 40px; animation: spin 2s linear infinite; margin: 0 auto;",
        )
    }

    /// The style of a button: accent background, small corner radius, fast
    /// transition.
    pub fn button_style() -> (style: String)
        ensures
            style@ == "padding: 8px 16px; background: "@ + Theme::ACCENT_BLUE@
                + "; color: white; border: none; border-radius: "@ + Theme::BORDER_RADIUS_SMALL@
                + "; cursor: pointer; transition: "@ + Theme::TRANSITION_FAST@ + ";"@,
    {
        String::from_str("padding: 8px 16px; background: ").concat(Theme::ACCENT_BLUE).concat(
            "; color: white; border: none; border-radius: ",
        ).concat(Theme::BORDER_RADIUS_SMALL).concat("; cursor: pointer; transition: ").concat(
            Theme::TRANSITION_FAST,
        ).concat(";")
    }
}

} // verus!
