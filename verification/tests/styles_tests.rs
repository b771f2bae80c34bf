use khimoo_portfolio::styles::{ArticleStyles, CommonStyles, Theme};

#[test]
fn theme_constants() {
    assert_eq!(Theme::BACKGROUND_PRIMARY, "#081D35");
    assert_eq!(Theme::TEXT_PRIMARY, "#e0e0e0");
    assert_eq!(Theme::TEXT_SECONDARY, "#aaa");
    assert_eq!(Theme::ACCENT_BLUE, "#66b3ff");
    assert_eq!(Theme::ACCENT_BLUE_HOVER, "#99ccff");
    assert_eq!(Theme::ERROR_COLOR, "#ff6b6b");
    assert_eq!(Theme::SUCCESS_COLOR, "#4CAF50");
    assert_eq!(Theme::NODE_DEFAULT, "slateblue");
    assert_eq!(Theme::NODE_BORDER, "rgba(0,0,0,0.2)");
    assert_eq!(Theme::CONTAINER_MAX_WIDTH, "1000px");
    assert_eq!(Theme::BORDER_RADIUS, "8px");
    assert_eq!(Theme::BORDER_RADIUS_SMALL, "4px");
    assert_eq!(Theme::TRANSITION_FAST, "0.2s ease-in-out");
    assert_eq!(Theme::TRANSITION_NORMAL, "0.3s ease-in-out");
}

#[test]
fn theme_styles() {
    let sheet = Theme::base_styles();
    assert_eq!(sheet, Theme::BASE_STYLE_SHEET);
    assert!(sheet.contains("background: var(--bg-color, #081D35);"));
    assert!(sheet.contains("@keyframes spin {"));
    assert!(sheet.contains("--success-color: #4CAF50;"));
    assert_eq!(
        Theme::loading_spinner_style(),
        "border: 4px solid #444; border-top: 4px solid #66b3ff; border-radius: 50%; width: 40px; height: 40px; animation: spin 2s linear infinite; margin: 0 auto;"
    );
    assert_eq!(
        Theme::button_style(),
        "padding: 8px 16px; background: #66b3ff; color: white; border: none; border-radius: 4px; cursor: pointer; transition: 0.2s ease-in-out;"
    );
}

#[test]
fn common_styles() {
    assert_eq!(
        CommonStyles::loading_container(),
        "display: flex; justify-content: center; align-items: center; height: 100vh; background: #081D35;"
    );
    assert_eq!(
        CommonStyles::error_container(),
        "display: flex; justify-content: center; align-items: center; height: 100vh; background: #081D35; color: #ff6b6b;"
    );
    assert_eq!(
        CommonStyles::main_container(),
        "padding: 16px; background: #081D35; color: #e0e0e0; min-height: 100vh;"
    );
    assert_eq!(CommonStyles::centered_text(), "text-align: center;");
    assert_eq!(CommonStyles::flex_container_with_gap("12px"), "display: flex; gap: 12px;");
    assert_eq!(CommonStyles::flex_container_with_gap(""), "display: flex; gap: ;");
    assert_eq!(CommonStyles::full_size(), "width: 100%; height: 100%;");
}

#[test]
fn article_styles() {
    let sheet = ArticleStyles::base_styles();
    assert_eq!(sheet, ArticleStyles::MARKDOWN_STYLE_SHEET);
    assert!(sheet.contains(".markdown-body blockquote {"));
    assert!(sheet.contains("border-left: 4px solid #66b3ff;"));
    assert_eq!(
        ArticleStyles::unified_article_container(),
        "padding: 16px; max-width: 800px; margin: 0 auto; background: #081D35; min-height: 100vh;"
    );
    assert_eq!(
        ArticleStyles::integrated_article_header(),
        "margin-bottom: 32px; padding-bottom: 16px; border-bottom: 1px solid #444; display: flex; justify-content: space-between; align-items: flex-start; gap: 20px;"
    );
    assert_eq!(
        ArticleStyles::integrated_article_title(),
        "margin: 0 0 16px 0; font-size: 2.5em; color: #e0e0e0; font-weight: bold;"
    );
    assert_eq!(
        ArticleStyles::integrated_article_meta(),
        "font-size: 14px; color: #aaa; display: flex; gap: 16px; flex-wrap: wrap;"
    );
    assert_eq!(
        ArticleStyles::author_image_container(),
        "flex-shrink: 0; display: flex; align-items: stretch;"
    );
    assert_eq!(ArticleStyles::author_image(), "height: 120px; object-fit: cover;");
    assert_eq!(
        ArticleStyles::tag_style(),
        "background: #4a5568; color: #e0e0e0; padding: 2px 6px; border-radius: 3px; font-size: 12px;"
    );
    assert_eq!(
        ArticleStyles::related_articles_footer(),
        "margin-top: 48px; padding-top: 24px; border-top: 1px solid #444;"
    );
    assert_eq!(ArticleStyles::related_articles_list(), "list-style: none; padding: 0;");
    assert_eq!(ArticleStyles::related_articles_item(), "margin-bottom: 8px;");
    assert_eq!(ArticleStyles::article_container(), ArticleStyles::unified_article_container());
    assert_eq!(ArticleStyles::article_header(), ArticleStyles::integrated_article_header());
    assert_eq!(ArticleStyles::article_title(), ArticleStyles::integrated_article_title());
    assert_eq!(ArticleStyles::article_meta(), ArticleStyles::integrated_article_meta());
    assert_eq!(
        ArticleStyles::index_container(),
        "padding: 16px; background: #081D35; color: #e0e0e0; min-height: 100vh;"
    );
    assert_eq!(
        ArticleStyles::list_item(),
        "margin-bottom: 20px; padding: 16px; border-radius: 8px;"
    );
}
