use khimoo_portfolio::articles::{
    ArticleStats, ValidationWarning, ValidationWarningType,
};
use khimoo_portfolio::{
    ArticleMetadata, ExtractedLink, LinkType, LinkValidator, ProcessedArticleRef, ValidationError,
    ValidationErrorType, ValidationReport, ValidationReportFormatter, ValidationSummary,
};

fn link(target: &str) -> ExtractedLink {
    ExtractedLink {
        target_slug: target.to_string(),
        link_type: LinkType::MarkdownLink,
        original_text: format!("[{}]({})", &target[..1], target),
    }
}

fn article(slug: &str, links: &[&str], related: &[&str]) -> ProcessedArticleRef {
    ProcessedArticleRef {
        slug: slug.to_string(),
        title: slug.to_uppercase(),
        outbound_links: links.iter().map(|t| link(t)).collect(),
        inbound_links: vec![],
        metadata: ArticleMetadata {
            related_articles: related.iter().map(|r| r.to_string()).collect(),
            ..Default::default()
        },
    }
}

fn sample() -> Vec<ProcessedArticleRef> {
    vec![
        article("alpha", &["beta", "ghost"], &["beta", "phantom"]),
        article("beta", &[], &[]),
        article("gamma", &[], &[]),
    ]
}

fn stats(broken: usize, invalid: usize, warnings: bool) -> ArticleStats {
    ArticleStats {
        outbound_links: broken + 1,
        inbound_links: 2,
        broken_outbound_links: broken,
        invalid_related_articles: invalid,
        has_errors: broken + invalid > 0,
        has_warnings: warnings,
    }
}

fn empty_summary() -> ValidationSummary {
    ValidationSummary {
        total_articles: 0,
        total_links: 0,
        broken_links: 0,
        invalid_references: 0,
        orphaned_articles: 0,
        articles_with_errors: 0,
        articles_with_warnings: 0,
    }
}

#[test]
fn validation_finds_broken_links_and_invalid_related_articles() {
    let articles = sample();
    let report = LinkValidator::new(&articles).validate_at("2024-05-05T00:00:00Z".to_string());
    assert_eq!(report.validation_date, "2024-05-05T00:00:00Z");
    assert_eq!(report.errors.len(), 2);
    assert_eq!(report.errors[0].error_type, ValidationErrorType::BrokenLink);
    assert_eq!(report.errors[0].source_article, "alpha");
    assert_eq!(report.errors[0].target_slug, "ghost");
    assert_eq!(report.errors[0].context, Some("[g](ghost)".to_string()));
    assert_eq!(report.errors[0].suggestion, None);
    assert_eq!(report.errors[1].error_type, ValidationErrorType::InvalidRelatedArticle);
    assert_eq!(report.errors[1].source_article, "alpha");
    assert_eq!(report.errors[1].target_slug, "phantom");
    assert_eq!(report.errors[1].context, None);
    assert!(report.warnings.is_empty());
    assert_eq!(
        report.summary,
        ValidationSummary {
            total_articles: 3,
            total_links: 2,
            broken_links: 1,
            invalid_references: 1,
            orphaned_articles: 1,
            articles_with_errors: 1,
            articles_with_warnings: 0,
        }
    );
    let slugs: Vec<&str> = report.article_stats.iter().map(|(s, _)| s.as_str()).collect();
    assert_eq!(slugs, vec!["alpha", "beta", "gamma"]);
    assert_eq!(
        report.article_stats[0].1,
        ArticleStats {
            outbound_links: 2,
            inbound_links: 0,
            broken_outbound_links: 1,
            invalid_related_articles: 1,
            has_errors: true,
            has_warnings: false,
        }
    );
    assert_eq!(
        report.article_stats[1].1,
        ArticleStats {
            outbound_links: 0,
            inbound_links: 1,
            broken_outbound_links: 0,
            invalid_related_articles: 0,
            has_errors: false,
            has_warnings: false,
        }
    );
    assert_eq!(report.article_stats[2].1.inbound_links, 0);
}

#[test]
fn validation_of_sound_and_of_no_articles() {
    let none: Vec<ProcessedArticleRef> = vec![];
    let report = LinkValidator::new(&none).validate_at("d".to_string());
    assert!(report.errors.is_empty());
    assert!(report.article_stats.is_empty());
    assert_eq!(report.summary, empty_summary());
    let sound = vec![article("a", &["b", "b", "a"], &["a"]), article("b", &["a"], &[])];
    let validator = LinkValidator::new(&sound);
    assert!(validator.knows("a"));
    assert!(!validator.knows("A"));
    assert_eq!(validator.inbound_count("b"), 2);
    assert_eq!(validator.inbound_count("a"), 2);
    assert_eq!(validator.inbound_count("c"), 0);
    let report = validator.validate();
    assert!(report.errors.is_empty());
    assert_eq!(report.summary.total_links, 4);
    assert_eq!(report.summary.orphaned_articles, 0);
    assert_eq!(report.summary.articles_with_errors, 0);
    // The date of a report made now is an RFC 3339 time.
    assert!(chrono::DateTime::parse_from_rfc3339(&report.validation_date).is_ok());
}

#[test]
fn console_report_of_a_validation() {
    let articles = sample();
    let report = LinkValidator::new(&articles).validate_at("2024-05-05T00:00:00Z".to_string());
    let expected = "\u{1f50d} Link Validation Report\n\
\u{1f4c5} Generated: 2024-05-05T00:00:00Z\n\
\n\
\u{1f4ca} Summary:\n   \u{1f4da} Total articles: 3\n   \u{1f517} Total links: 2\n   \u{274c} Broken links: 1\n   \u{26a0}\u{fe0f}  Invalid references: 1\n   \u{1f3dd}\u{fe0f}  Orphaned articles: 1\n   \u{1f4c4} Articles with errors: 1\n   \u{26a0}\u{fe0f}  Articles with warnings: 0\n\
\n\u{274c} Errors:\n\
1. \u{1f517} Broken Link: alpha \u{2192} ghost ([g](ghost))\n\
2. \u{1f4cb} Invalid Related Article: alpha \u{2192} phantom\n\
\n\u{1f4c8} Article Statistics:\n   \u{1f4c4} alpha: 1 broken links, 1 invalid references (2 out, 0 in)\n\
\n\u{1f4a1} Recommendations:\n   \u{2022} Fix broken links by updating article references\n   \u{2022} Remove invalid entries from related_articles in front matter\n   \u{2022} Consider creating missing articles if they are frequently referenced\n   \u{2022} Add links to/from orphaned articles to improve connectivity\n";
    assert_eq!(ValidationReportFormatter::format_console(&report), expected);
    assert_eq!(
        ValidationReportFormatter::format_ci_summary(&report),
        "\u{274c} Validation failed: 1 broken links 1 invalid references"
    );
}

#[test]
fn console_report_without_findings() {
    let report = ValidationReport {
        validation_date: "today".to_string(),
        summary: empty_summary(),
        errors: vec![],
        warnings: vec![],
        article_stats: vec![],
    };
    assert_eq!(
        ValidationReportFormatter::format_console(&report),
        "\u{1f50d} Link Validation Report\n\u{1f4c5} Generated: today\n\n\u{1f4ca} Summary:\n   \u{1f4da} Total articles: 0\n   \u{1f517} Total links: 0\n   \u{2705} All links valid\n   \u{1f4c4} Articles with errors: 0\n   \u{26a0}\u{fe0f}  Articles with warnings: 0\n"
    );
    assert_eq!(ValidationReportFormatter::format_ci_summary(&report), "\u{2705} All links valid");
}

#[test]
fn statistics_rank_the_ten_articles_with_the_most_issues() {
    let mut entries = vec![
        ("clean".to_string(), stats(0, 0, false)),
        ("one".to_string(), stats(1, 0, false)),
        ("warned".to_string(), stats(0, 0, true)),
        ("three".to_string(), stats(1, 2, false)),
        ("also-one".to_string(), stats(0, 1, true)),
    ];
    for k in 0..8 {
        entries.push((format!("two-{}", k), stats(2, 0, false)));
    }
    let report = ValidationReport {
        validation_date: "d".to_string(),
        summary: ValidationSummary { articles_with_warnings: 2, ..empty_summary() },
        errors: vec![],
        warnings: vec![ValidationWarning {
            warning_type: ValidationWarningType::UnusedTag,
            source_article: "warned".to_string(),
            target_reference: Some("tag".to_string()),
            context: Some("never used".to_string()),
            suggestion: Some("remove it".to_string()),
        }],
        article_stats: entries,
    };
    let text = ValidationReportFormatter::format_console(&report);
    let block = text.split("\u{1f4c8} Article Statistics:\n").nth(1).unwrap();
    let lines: Vec<&str> = block.lines().collect();
    assert_eq!(
        lines,
        vec![
            "   \u{1f4c4} three: 1 broken links, 2 invalid references (2 out, 2 in)",
            "   \u{1f4c4} two-0: 2 broken links (3 out, 2 in)",
            "   \u{1f4c4} two-1: 2 broken links (3 out, 2 in)",
            "   \u{1f4c4} two-2: 2 broken links (3 out, 2 in)",
            "   \u{1f4c4} two-3: 2 broken links (3 out, 2 in)",
            "   \u{1f4c4} two-4: 2 broken links (3 out, 2 in)",
            "   \u{1f4c4} two-5: 2 broken links (3 out, 2 in)",
            "   \u{1f4c4} two-6: 2 broken links (3 out, 2 in)",
            "   \u{1f4c4} two-7: 2 broken links (3 out, 2 in)",
            "   \u{1f4c4} one: 1 broken links (2 out, 2 in)",
        ]
    );
    assert!(text.contains(
        "\n\u{26a0}\u{fe0f}  Warnings:\n1. \u{1f3f7}\u{fe0f}  Unused Tag: warned \u{2192} tag (never used) | \u{1f4a1} remove it\n"
    ));
    assert_eq!(
        ValidationReportFormatter::format_ci_summary(&report),
        "\u{2705} All links valid (2 warnings)"
    );
}

#[test]
fn statistics_show_articles_that_only_carry_warnings() {
    let report = ValidationReport {
        validation_date: "d".to_string(),
        summary: empty_summary(),
        errors: vec![],
        warnings: vec![],
        article_stats: vec![
            ("calm".to_string(), stats(0, 0, false)),
            ("warned".to_string(), stats(0, 0, true)),
            ("refs".to_string(), stats(0, 3, false)),
        ],
    };
    let text = ValidationReportFormatter::format_console(&report);
    assert!(text.ends_with(
        "\n\u{1f4c8} Article Statistics:\n   \u{1f4c4} refs: 3 invalid references (1 out, 2 in)\n   \u{1f4c4} warned: warnings only (1 out, 2 in)\n"
    ));
}

#[test]
fn single_errors_and_warnings_as_text() {
    let mut error = ValidationError {
        error_type: ValidationErrorType::BrokenLink,
        source_article: "a".to_string(),
        target_slug: "b".to_string(),
        context: None,
        suggestion: None,
    };
    assert_eq!(ValidationReportFormatter::format_error(&error), "\u{1f517} Broken Link: a \u{2192} b");
    error.context = Some("[b](b)".to_string());
    error.suggestion = Some("create b".to_string());
    assert_eq!(
        ValidationReportFormatter::format_error(&error),
        "\u{1f517} Broken Link: a \u{2192} b ([b](b)) | \u{1f4a1} create b"
    );
    let labels = [
        (ValidationErrorType::InvalidRelatedArticle, "\u{1f4cb} Invalid Related Article"),
        (ValidationErrorType::MissingMetadata, "\u{1f4dd} Missing Metadata"),
        (ValidationErrorType::InvalidMetadata, "\u{274c} Invalid Metadata"),
        (ValidationErrorType::CircularReference, "\u{1f504} Circular Reference"),
        (ValidationErrorType::OrphanedArticle, "\u{1f3dd}\u{fe0f}  Orphaned Article"),
    ];
    for (error_type, label) in labels {
        let error = ValidationError {
            error_type,
            source_article: "s".to_string(),
            target_slug: "t".to_string(),
            context: None,
            suggestion: Some("hint".to_string()),
        };
        assert_eq!(
            ValidationReportFormatter::format_error(&error),
            format!("{}: s \u{2192} t | \u{1f4a1} hint", label)
        );
    }
    let labels = [
        (ValidationWarningType::UnusedTag, "\u{1f3f7}\u{fe0f}  Unused Tag"),
        (ValidationWarningType::LowImportanceWithManyLinks, "\u{1f4c8} Low Importance, Many Links"),
        (ValidationWarningType::HighImportanceWithFewLinks, "\u{1f4c9} High Importance, Few Links"),
        (ValidationWarningType::MissingBacklinks, "\u{1f517} Missing Backlinks"),
        (ValidationWarningType::InconsistentCasing, "\u{1f524} Inconsistent Casing"),
    ];
    for (warning_type, label) in labels {
        let warning = ValidationWarning {
            warning_type,
            source_article: "s".to_string(),
            target_reference: None,
            context: Some("why".to_string()),
            suggestion: None,
        };
        assert_eq!(ValidationReportFormatter::format_warning(&warning), format!("{}: s (why)", label));
    }
}

#[test]
fn ci_summary_counts_only_what_is_not_zero() {
    let report = |broken: usize, invalid: usize, warned: usize| ValidationReport {
        validation_date: String::new(),
        summary: ValidationSummary {
            broken_links: broken,
            invalid_references: invalid,
            articles_with_warnings: warned,
            ..empty_summary()
        },
        errors: vec![],
        warnings: vec![],
        article_stats: vec![],
    };
    let format = |r: &ValidationReport| ValidationReportFormatter::format_ci_summary(r);
    assert_eq!(format(&report(3, 0, 0)), "\u{274c} Validation failed: 3 broken links");
    assert_eq!(format(&report(0, 12, 0)), "\u{274c} Validation failed: 12 invalid references");
    assert_eq!(
        format(&report(1, 1, 1)),
        "\u{274c} Validation failed: 1 broken links 1 invalid references (1 warnings)"
    );
}
