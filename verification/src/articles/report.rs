//! The text forms of a validation report.

use vstd::prelude::*;
use vstd::string::StringExecFns;
use crate::articles::validator::{
    ArticleStats, ErrorView, ValidationError, ValidationErrorType, ValidationReport,
    ValidationSummary, ValidationWarning, ValidationWarningType,
};
use crate::text::{decimal, format_usize};

verus! {

/// A validation warning with its texts as character sequences.
pub struct WarningView {
    pub warning_type: ValidationWarningType,
    pub source_article: Seq<char>,
    pub target_reference: Option<Seq<char>>,
    pub context: Option<Seq<char>>,
    pub suggestion: Option<Seq<char>>,
}

impl View for ValidationWarning {
    type V = WarningView;

    open spec fn view(&self) -> WarningView {
        WarningView {
            warning_type: self.warning_type,
            source_article: self.source_article@,
            target_reference: match self.target_reference {
                Some(text) => Some(text@),
                None => None,
            },
            context: match self.context {
                Some(text) => Some(text@),
                None => None,
            },
            suggestion: match self.suggestion {
                Some(text) => Some(text@),
                None => None,
            },
        }
    }
}

/// The heading under which an error of this type is shown.
pub open spec fn error_label(error_type: ValidationErrorType) -> Seq<char> {
    match error_type {
        ValidationErrorType::BrokenLink => "🔗 Broken Link"@,
        ValidationErrorType::InvalidRelatedArticle => "📋 Invalid Related Article"@,
        ValidationErrorType::MissingMetadata => "📝 Missing Metadata"@,
        ValidationErrorType::InvalidMetadata => "❌ Invalid Metadata"@,
        ValidationErrorType::CircularReference => "🔄 Circular Reference"@,
        ValidationErrorType::OrphanedArticle => "🏝️  Orphaned Article"@,
    }
}

/// The heading under which a warning of this type is shown.
pub open spec fn warning_label(warning_type: ValidationWarningType) -> Seq<char> {
    match warning_type {
        ValidationWarningType::UnusedTag => "🏷️  Unused Tag"@,
        ValidationWarningType::LowImportanceWithManyLinks => "📈 Low Importance, Many Links"@,
        ValidationWarningType::HighImportanceWithFewLinks => "📉 High Importance, Few Links"@,
        ValidationWarningType::MissingBacklinks => "🔗 Missing Backlinks"@,
        ValidationWarningType::InconsistentCasing => "🔤 Inconsistent Casing"@,
    }
}

/// `text` between round brackets after a space, or nothing.
pub open spec fn bracketed(text: Option<Seq<char>>) -> Seq<char> {
    match text {
        Some(inner) => " ("@ + inner + ")"@,
        None => Seq::empty(),
    }
}

/// `text` as a suggestion after a bar, or nothing.
pub open spec fn suggested(text: Option<Seq<char>>) -> Seq<char> {
    match text {
        Some(inner) => " | 💡 "@ + inner,
        None => Seq::empty(),
    }
}

/// `text` after an arrow, or nothing.
pub open spec fn pointed(text: Option<Seq<char>>) -> Seq<char> {
    match text {
        Some(inner) => " → "@ + inner,
        None => Seq::empty(),
    }
}

/// One error as a line of text: heading, source, target, then context and
/// suggestion where present.
pub open spec fn error_text(error: ErrorView) -> Seq<char> {
    error_label(error.error_type) + ": "@ + error.source_article + " → "@ + error.target_slug
        + bracketed(error.context) + suggested(error.suggestion)
}

/// One warning as a line of text: heading, source, then target, context
/// and suggestion where present.
pub open spec fn warning_text(warning: WarningView) -> Seq<char> {
    warning_label(warning.warning_type) + ": "@ + warning.source_article + pointed(
        warning.target_reference,
    ) + bracketed(warning.context) + suggested(warning.suggestion)
}

/// A count after a space and before a label, where the count is not zero.
pub open spec fn counted(count: usize, label: Seq<char>) -> Seq<char> {
    if count > 0 {
        " "@ + decimal(count as nat) + label
    } else {
        Seq::empty()
    }
}

/// The one-line summary for build pipelines.
pub open spec fn ci_summary_text(summary: ValidationSummary) -> Seq<char> {
    (if summary.broken_links == 0 && summary.invalid_references == 0 {
        "✅ All links valid"@
    } else {
        "❌ Validation failed:"@ + counted(summary.broken_links, " broken links"@) + counted(
            summary.invalid_references,
            " invalid references"@,
        )
    }) + (if summary.articles_with_warnings > 0 {
        " ("@ + decimal(summary.articles_with_warnings as nat) + " warnings)"@
    } else {
        Seq::empty()
    })
}

/// An entry of the article counts with its slug as a character sequence.
pub type StatsView = (Seq<char>, ArticleStats);

/// The views of the entries of the article counts.
pub open spec fn stat_views(entries: Seq<(String, ArticleStats)>) -> Seq<StatsView> {
    Seq::new(entries.len(), |i: int| (entries[i].0@, entries[i].1))
}

/// The views of a sequence of warnings.
pub open spec fn warning_views(warnings: Seq<ValidationWarning>) -> Seq<WarningView> {
    Seq::new(warnings.len(), |i: int| warnings[i]@)
}

/// The heading of the report with its date.
pub open spec fn report_header(date: Seq<char>) -> Seq<char> {
    "🔍 Link Validation Report\n"@ + "📅 Generated: "@ + date + "\n\n"@
}

/// A label, a count and the end of the line.
pub open spec fn labelled_count(label: Seq<char>, count: usize) -> Seq<char> {
    label + decimal(count as nat) + "\n"@
}

/// The same where the count is not zero, and nothing where it is.
pub open spec fn labelled_if_positive(label: Seq<char>, count: usize) -> Seq<char> {
    if count > 0 {
        labelled_count(label, count)
    } else {
        Seq::empty()
    }
}

/// The block of totals.
pub open spec fn summary_block(summary: ValidationSummary) -> Seq<char> {
    "📊 Summary:\n"@ + labelled_count("   📚 Total articles: "@, summary.total_articles)
        + labelled_count("   🔗 Total links: "@, summary.total_links) + (if summary.broken_links
        > 0 {
        labelled_count("   ❌ Broken links: "@, summary.broken_links)
    } else {
        "   ✅ All links valid\n"@
    }) + labelled_if_positive("   ⚠️  Invalid references: "@, summary.invalid_references)
        + labelled_if_positive("   🏝️  Orphaned articles: "@, summary.orphaned_articles)
        + labelled_count("   📄 Articles with errors: "@, summary.articles_with_errors)
        + labelled_count("   ⚠️  Articles with warnings: "@, summary.articles_with_warnings)
}

/// The errors, one per line, numbered from one.
pub open spec fn numbered_errors(errors: Seq<ErrorView>) -> Seq<char>
    decreases errors.len(),
{
    if errors.len() == 0 {
        Seq::empty()
    } else {
        numbered_errors(errors.drop_last()) + decimal(errors.len()) + ". "@ + error_text(
            errors.last(),
        ) + "\n"@
    }
}

/// The warnings, one per line, numbered from one.
pub open spec fn numbered_warnings(warnings: Seq<WarningView>) -> Seq<char>
    decreases warnings.len(),
{
    if warnings.len() == 0 {
        Seq::empty()
    } else {
        numbered_warnings(warnings.drop_last()) + decimal(warnings.len()) + ". "@ + warning_text(
            warnings.last(),
        ) + "\n"@
    }
}

/// The block of errors; nothing where there are none.
pub open spec fn errors_block(errors: Seq<ErrorView>) -> Seq<char> {
    if errors.len() == 0 {
        Seq::empty()
    } else {
        "\n❌ Errors:\n"@ + numbered_errors(errors)
    }
}

/// The block of warnings; nothing where there are none.
pub open spec fn warnings_block(warnings: Seq<WarningView>) -> Seq<char> {
    if warnings.len() == 0 {
        Seq::empty()
    } else {
        "\n⚠️  Warnings:\n"@ + numbered_warnings(warnings)
    }
}

/// The number of issues of an article: its broken links and its invalid
/// related articles.
pub open spec fn issue_count(stats: ArticleStats) -> int {
    stats.broken_outbound_links + stats.invalid_related_articles
}

/// The entries of the articles that have errors or warnings, in order.
pub open spec fn troubled(entries: Seq<StatsView>) -> Seq<StatsView>
    decreases entries.len(),
{
    if entries.len() == 0 {
        Seq::empty()
    } else {
        let earlier = troubled(entries.drop_last());
        if entries.last().1.has_errors || entries.last().1.has_warnings {
            earlier.push(entries.last())
        } else {
            earlier
        }
    }
}

/// `entry` put into a ranking: behind every entry that has at least as
/// many issues.
pub open spec fn insert_ranked(ranking: Seq<StatsView>, entry: StatsView) -> Seq<StatsView>
    decreases ranking.len(),
{
    if ranking.len() == 0 || issue_count(ranking.last().1) >= issue_count(entry.1) {
        ranking.push(entry)
    } else {
        insert_ranked(ranking.drop_last(), entry).push(ranking.last())
    }
}

/// The entries ranked by falling number of issues; entries with equally
/// many issues keep their order.
pub open spec fn ranked(entries: Seq<StatsView>) -> Seq<StatsView>
    decreases entries.len(),
{
    if entries.len() == 0 {
        Seq::empty()
    } else {
        insert_ranked(ranked(entries.drop_last()), entries.last())
    }
}

/// The first entries, ten at most.
pub open spec fn first_ten(entries: Seq<StatsView>) -> Seq<StatsView> {
    if entries.len() > 10 {
        entries.take(10)
    } else {
        entries
    }
}

/// What is wrong with an article, in words.
pub open spec fn issue_parts(stats: ArticleStats) -> Seq<char> {
    if stats.broken_outbound_links > 0 && stats.invalid_related_articles > 0 {
        decimal(stats.broken_outbound_links as nat) + " broken links"@ + ", "@ + decimal(
            stats.invalid_related_articles as nat,
        ) + " invalid references"@
    } else if stats.broken_outbound_links > 0 {
        decimal(stats.broken_outbound_links as nat) + " broken links"@
    } else if stats.invalid_related_articles > 0 {
        decimal(stats.invalid_related_articles as nat) + " invalid references"@
    } else if stats.has_warnings {
        "warnings only"@
    } else {
        Seq::empty()
    }
}

/// The line of one article in the statistics.
pub open spec fn stats_line(entry: StatsView) -> Seq<char> {
    "   📄 "@ + entry.0 + ": "@ + issue_parts(entry.1) + " ("@ + decimal(
        entry.1.outbound_links as nat,
    ) + " out, "@ + decimal(entry.1.inbound_links as nat) + " in)"@ + "\n"@
}

/// The lines of the entries, in order.
pub open spec fn stats_lines(entries: Seq<StatsView>) -> Seq<char>
    decreases entries.len(),
{
    if entries.len() == 0 {
        Seq::empty()
    } else {
        stats_lines(entries.drop_last()) + stats_line(entries.last())
    }
}

/// The block of statistics: the ten articles with the most issues among
/// those that have errors or warnings. Nothing where no article was
/// counted.
pub open spec fn stats_block(entries: Seq<StatsView>) -> Seq<char> {
    if entries.len() == 0 {
        Seq::empty()
    } else {
        "\n📈 Article Statistics:\n"@ + stats_lines(first_ten(ranked(troubled(entries))))
    }
}

/// The closing advice, by what the totals show.
pub open spec fn advice_block(summary: ValidationSummary) -> Seq<char> {
    (if summary.broken_links > 0 || summary.invalid_references > 0 {
        "\n💡 Recommendations:\n"@ + "   • Fix broken links by updating article references\n"@
            + "   • Remove invalid entries from related_articles in front matter\n"@
            + "   • Consider creating missing articles if they are frequently referenced\n"@
    } else {
        Seq::empty()
    }) + (if summary.orphaned_articles > 0 {
        "   • Add links to/from orphaned articles to improve connectivity\n"@
    } else {
        Seq::empty()
    })
}

/// The report as text for a terminal: heading, totals, errors, warnings,
/// statistics, advice.
pub open spec fn console_text(report: ValidationReport) -> Seq<char> {
    report_header(report.validation_date@) + summary_block(report.summary) + errors_block(
        crate::articles::validator::error_views(report.errors@),
    ) + warnings_block(warning_views(report.warnings@)) + stats_block(
        stat_views(report.article_stats@),
    ) + advice_block(report.summary)
}

/// Where every entry from index `at` on has fewer issues than `entry` and
/// the entry before `at`, if any, has at least as many, ranking `entry`
/// puts it at index `at`.
pub proof fn lemma_insert_ranked(ranking: Seq<StatsView>, entry: StatsView, at: int)
    requires
        0 <= at <= ranking.len(),
        forall|k: int| at <= k < ranking.len() ==> issue_count(ranking[k].1) < issue_count(entry.1),
        at > 0 ==> issue_count(ranking[at - 1].1) >= issue_count(entry.1),
    ensures
        insert_ranked(ranking, entry) == ranking.insert(at, entry),
    decreases ranking.len() - at,
{
    if at == ranking.len() {
        assert(ranking.push(entry) =~= ranking.insert(at, entry));
    } else {
        let front = ranking.drop_last();
        lemma_insert_ranked(front, entry, at);
        assert(front.insert(at, entry).push(ranking.last()) =~= ranking.insert(at, entry));
    }
}

/// A ranking is ordered: no entry has fewer issues than the one behind it.
pub proof fn lemma_ranked_ordered(entries: Seq<StatsView>)
    ensures
        ranked(entries).len() == entries.len(),
        forall|k: int, m: int|
            0 <= k < m < ranked(entries).len() ==> issue_count(ranked(entries)[k].1)
                >= issue_count(ranked(entries)[m].1),
    decreases entries.len(),
{
    if entries.len() > 0 {
        lemma_ranked_ordered(entries.drop_last());
        lemma_insert_keeps_order(ranked(entries.drop_last()), entries.last());
    }
}

/// Ranking an entry into an ordered ranking leaves it ordered and one
/// longer.
pub proof fn lemma_insert_keeps_order(ranking: Seq<StatsView>, entry: StatsView)
    requires
        forall|k: int, m: int|
            0 <= k < m < ranking.len() ==> issue_count(ranking[k].1) >= issue_count(ranking[m].1),
    ensures
        insert_ranked(ranking, entry).len() == ranking.len() + 1,
        forall|k: int, m: int|
            0 <= k < m < insert_ranked(ranking, entry).len() ==> issue_count(
                insert_ranked(ranking, entry)[k].1,
            ) >= issue_count(insert_ranked(ranking, entry)[m].1),
        forall|k: int|
            0 <= k < insert_ranked(ranking, entry).len() ==> insert_ranked(ranking, entry)[k]
                == entry || exists|j: int|
                0 <= j < ranking.len() && ranking[j] == #[trigger] insert_ranked(ranking, entry)[k],
    decreases ranking.len(),
{
    if ranking.len() == 0 || issue_count(ranking.last().1) >= issue_count(entry.1) {
        let after = ranking.push(entry);
        assert forall|k: int| 0 <= k < after.len() implies after[k] == entry || exists|j: int|
            0 <= j < ranking.len() && ranking[j] == #[trigger] after[k] by {
            if k < ranking.len() {
                assert(ranking[k] == after[k]);
            }
        }
    } else {
        let front = ranking.drop_last();
        lemma_insert_keeps_order(front, entry);
        let inner = insert_ranked(front, entry);
        let after = inner.push(ranking.last());
        assert forall|k: int, m: int| 0 <= k < m < after.len() implies issue_count(after[k].1)
            >= issue_count(after[m].1) by {
            if m == after.len() - 1 {
                if inner[k] != entry {
                    let j = choose|j: int| 0 <= j < front.len() && front[j] == inner[k];
                    assert(ranking[j] == front[j]);
                }
            }
        }
        assert forall|k: int| 0 <= k < after.len() implies after[k] == entry || exists|j: int|
            0 <= j < ranking.len() && ranking[j] == #[trigger] after[k] by {
            if k < inner.len() {
                if inner[k] != entry {
                    let j = choose|j: int| 0 <= j < front.len() && front[j] == inner[k];
                    assert(ranking[j] == after[k]);
                }
            } else {
                assert(ranking[ranking.len() - 1] == after[k]);
            }
        }
    }
}

/// Writes reports as text.
pub struct ValidationReportFormatter;

impl ValidationReportFormatter {
    /// The heading of an error type.
    fn error_label_of(error_type: ValidationErrorType) -> (label: &'static str)
        ensures
            label@ == error_label(error_type),
    {
        match error_type {
            ValidationErrorType::BrokenLink => "🔗 Broken Link",
            ValidationErrorType::InvalidRelatedArticle => "📋 Invalid Related Article",
            ValidationErrorType::MissingMetadata => "📝 Missing Metadata",
            ValidationErrorType::InvalidMetadata => "❌ Invalid Metadata",
            ValidationErrorType::CircularReference => "🔄 Circular Reference",
            ValidationErrorType::OrphanedArticle => "🏝️  Orphaned Article",
        }
    }

    /// The heading of a warning type.
    fn warning_label_of(warning_type: ValidationWarningType) -> (label: &'static str)
        ensures
            label@ == warning_label(warning_type),
    {
        match warning_type {
            ValidationWarningType::UnusedTag => "🏷️  Unused Tag",
            ValidationWarningType::LowImportanceWithManyLinks => "📈 Low Importance, Many Links",
            ValidationWarningType::HighImportanceWithFewLinks => "📉 High Importance, Few Links",
            ValidationWarningType::MissingBacklinks => "🔗 Missing Backlinks",
            ValidationWarningType::InconsistentCasing => "🔤 Inconsistent Casing",
        }
    }

    /// Appends the context and the suggestion of a line, where present.
    fn append_notes(line: &mut String, context: &Option<String>, suggestion: &Option<String>)
        ensures
            final(line)@ == old(line)@ + bracketed(
                match *context {
                    Some(text) => Some(text@),
                    None => None,
                },
            ) + suggested(
                match *suggestion {
                    Some(text) => Some(text@),
                    None => None,
                },
            ),
    {
        let ghost start = line@;
        if let Some(text) = context {
            line.append(" (");
            line.append(text.as_str());
            line.append(")");
            assert(line@ =~= start + (" ("@ + text@ + ")"@));
        } else {
            assert(line@ =~= start + Seq::<char>::empty());
        }
        let ghost middle = line@;
        if let Some(text) = suggestion {
            line.append(" | 💡 ");
            line.append(text.as_str());
            assert(line@ =~= middle + (" | 💡 "@ + text@));
        } else {
            assert(line@ =~= middle + Seq::<char>::empty());
        }
    }

    /// One error as a line of text.
    pub fn format_error(error: &ValidationError) -> (line: String)
        ensures
            line@ == error_text(error@),
    {
        let mut line = String::from_str(Self::error_label_of(error.error_type));
        line.append(": ");
        line.append(error.source_article.as_str());
        line.append(" → ");
        line.append(error.target_slug.as_str());
        Self::append_notes(&mut line, &error.context, &error.suggestion);
        line
    }

    /// One warning as a line of text.
    pub fn format_warning(warning: &ValidationWarning) -> (line: String)
        ensures
            line@ == warning_text(warning@),
    {
        let mut line = String::from_str(Self::warning_label_of(warning.warning_type));
        line.append(": ");
        line.append(warning.source_article.as_str());
        let ghost start = line@;
        if let Some(target) = &warning.target_reference {
            line.append(" → ");
            line.append(target.as_str());
            assert(line@ =~= start + (" → "@ + target@));
        } else {
            assert(line@ =~= start + Seq::<char>::empty());
        }
        Self::append_notes(&mut line, &warning.context, &warning.suggestion);
        line
    }

    /// Appends a count and its label, where the count is not zero.
    fn append_counted(line: &mut String, count: usize, label: &str)
        ensures
            final(line)@ == old(line)@ + counted(count, label@),
    {
        let ghost start = line@;
        if count > 0 {
            line.append(" ");
            line.append(format_usize(count).as_str());
            line.append(label);
            assert(line@ =~= start + (" "@ + decimal(count as nat) + label@));
        } else {
            assert(line@ =~= start + Seq::<char>::empty());
        }
    }

    /// The one-line summary for build pipelines: whether all links are
    /// valid, else how many are broken and how many references are
    /// invalid, and how many articles carry warnings.
    pub fn format_ci_summary(report: &ValidationReport) -> (line: String)
        ensures
            line@ == ci_summary_text(report.summary),
    {
        let summary = &report.summary;
        let mut line = String::new();
        if summary.broken_links == 0 && summary.invalid_references == 0 {
            line.append("✅ All links valid");
            assert(line@ =~= "✅ All links valid"@);
        } else {
            line.append("❌ Validation failed:");
            Self::append_counted(&mut line, summary.broken_links, " broken links");
            Self::append_counted(&mut line, summary.invalid_references, " invalid references");
            assert(line@ =~= "❌ Validation failed:"@ + counted(
                summary.broken_links,
                " broken links"@,
            ) + counted(summary.invalid_references, " invalid references"@));
        }
        let ghost start = line@;
        if summary.articles_with_warnings > 0 {
            line.append(" (");
            line.append(format_usize(summary.articles_with_warnings).as_str());
            line.append(" warnings)");
            assert(line@ =~= start + (" ("@ + decimal(summary.articles_with_warnings as nat)
                + " warnings)"@));
        } else {
            assert(line@ =~= start + Seq::<char>::empty());
        }
        line
    }

    /// Appends a label, a count and the end of the line.
    fn append_labelled(text: &mut String, label: &str, count: usize)
        ensures
            final(text)@ == old(text)@ + labelled_count(label@, count),
    {
        let ghost start = text@;
        text.append(label);
        text.append(format_usize(count).as_str());
        text.append("\n");
        assert(text@ =~= start + (label@ + decimal(count as nat) + "\n"@));
    }

    /// Appends the same where the count is not zero.
    fn append_labelled_if_positive(text: &mut String, label: &str, count: usize)
        ensures
            final(text)@ == old(text)@ + labelled_if_positive(label@, count),
    {
        let ghost start = text@;
        if count > 0 {
            Self::append_labelled(text, label, count);
        } else {
            assert(text@ =~= start + Seq::<char>::empty());
        }
    }

    /// The block of totals.
    fn summary_text(summary: &ValidationSummary) -> (text: String)
        ensures
            text@ == summary_block(*summary),
    {
        let mut text = String::from_str("📊 Summary:\n");
        Self::append_labelled(&mut text, "   📚 Total articles: ", summary.total_articles);
        Self::append_labelled(&mut text, "   🔗 Total links: ", summary.total_links);
        if summary.broken_links > 0 {
            Self::append_labelled(&mut text, "   ❌ Broken links: ", summary.broken_links);
        } else {
            text.append("   ✅ All links valid\n");
        }
        Self::append_labelled_if_positive(
            &mut text,
            "   ⚠️  Invalid references: ",
            summary.invalid_references,
        );
        Self::append_labelled_if_positive(
            &mut text,
            "   🏝️  Orphaned articles: ",
            summary.orphaned_articles,
        );
        Self::append_labelled(
            &mut text,
            "   📄 Articles with errors: ",
            summary.articles_with_errors,
        );
        Self::append_labelled(
            &mut text,
            "   ⚠️  Articles with warnings: ",
            summary.articles_with_warnings,
        );
        text
    }

    /// The block of errors.
    fn errors_text(errors: &Vec<ValidationError>) -> (text: String)
        ensures
            text@ == errors_block(crate::articles::validator::error_views(errors@)),
    {
        let ghost views = crate::articles::validator::error_views(errors@);
        let mut text = String::new();
        if errors.len() == 0 {
            return text;
        }
        let mut i: usize = 0;
        assert(views.take(0) =~= Seq::<ErrorView>::empty());
        while i < errors.len()
            invariant
                i <= errors.len(),
                views == crate::articles::validator::error_views(errors@),
                text@ == numbered_errors(views.take(i as int)),
            decreases errors.len() - i,
        {
            let ghost start = text@;
            proof {
                assert(views.take(i + 1).drop_last() =~= views.take(i as int));
                assert(views.take(i + 1).last() == errors@[i as int]@);
            }
            text.append(format_usize(i + 1).as_str());
            text.append(". ");
            text.append(Self::format_error(&errors[i]).as_str());
            text.append("\n");
            assert(text@ =~= start + decimal((i + 1) as nat) + ". "@ + error_text(
                errors@[i as int]@,
            ) + "\n"@);
            i += 1;
        }
        assert(views.take(i as int) =~= views);
        let mut block = String::from_str("\n❌ Errors:\n");
        block.append(text.as_str());
        block
    }

    /// The block of warnings.
    fn warnings_text(warnings: &Vec<ValidationWarning>) -> (text: String)
        ensures
            text@ == warnings_block(warning_views(warnings@)),
    {
        let ghost views = warning_views(warnings@);
        let mut text = String::new();
        if warnings.len() == 0 {
            return text;
        }
        let mut i: usize = 0;
        assert(views.take(0) =~= Seq::<WarningView>::empty());
        while i < warnings.len()
            invariant
                i <= warnings.len(),
                views == warning_views(warnings@),
                text@ == numbered_warnings(views.take(i as int)),
            decreases warnings.len() - i,
        {
            let ghost start = text@;
            proof {
                assert(views.take(i + 1).drop_last() =~= views.take(i as int));
                assert(views.take(i + 1).last() == warnings@[i as int]@);
            }
            text.append(format_usize(i + 1).as_str());
            text.append(". ");
            text.append(Self::format_warning(&warnings[i]).as_str());
            text.append("\n");
            assert(text@ =~= start + decimal((i + 1) as nat) + ". "@ + warning_text(
                warnings@[i as int]@,
            ) + "\n"@);
            i += 1;
        }
        assert(views.take(i as int) =~= views);
        let mut block = String::from_str("\n⚠️  Warnings:\n");
        block.append(text.as_str());
        block
    }

    /// Whether the first counts show fewer issues than the second.
    fn fewer_issues(first: &ArticleStats, second: &ArticleStats) -> (fewer: bool)
        ensures
            fewer == (issue_count(*first) < issue_count(*second)),
    {
        let left: u128 = first.broken_outbound_links as u128 + first.invalid_related_articles
            as u128;
        let right: u128 = second.broken_outbound_links as u128 + second.invalid_related_articles
            as u128;
        left < right
    }

    /// The indices of the entries that have errors or warnings, ranked by
    /// falling number of issues.
    fn rank_troubled(entries: &Vec<(String, ArticleStats)>) -> (order: Vec<usize>)
        ensures
            forall|k: int| 0 <= k < order@.len() ==> order@[k] < entries@.len(),
            Seq::new(order@.len(), |k: int| stat_views(entries@)[order@[k] as int]) == ranked(
                troubled(stat_views(entries@)),
            ),
    {
        let ghost views = stat_views(entries@);
        let mut order: Vec<usize> = Vec::new();
        let mut i: usize = 0;
        assert(views.take(0) =~= Seq::<StatsView>::empty());
        assert(Seq::new(order@.len(), |k: int| views[order@[k] as int]) =~= ranked(
            troubled(views.take(0)),
        ));
        while i < entries.len()
            invariant
                i <= entries.len(),
                views == stat_views(entries@),
                forall|k: int| 0 <= k < order@.len() ==> order@[k] < i,
                Seq::new(order@.len(), |k: int| views[order@[k] as int]) == ranked(
                    troubled(views.take(i as int)),
                ),
            decreases entries.len() - i,
        {
            proof {
                assert(views.take(i + 1).drop_last() =~= views.take(i as int));
                assert(views.take(i + 1).last() == views[i as int]);
            }
            let stats = &entries[i].1;
            if stats.has_errors || stats.has_warnings {
                let ghost ranking = Seq::new(order@.len(), |k: int| views[order@[k] as int]);
                let mut at: usize = order.len();
                while at > 0 && Self::fewer_issues(&entries[order[at - 1]].1, stats)
                    invariant
                        at <= order@.len(),
                        i < entries@.len(),
                        views == stat_views(entries@),
                        *stats == entries@[i as int].1,
                        forall|k: int| 0 <= k < order@.len() ==> order@[k] < i,
                        ranking == Seq::new(order@.len(), |k: int| views[order@[k] as int]),
                        forall|k: int|
                            at <= k < ranking.len() ==> issue_count(ranking[k].1) < issue_count(
                                *stats,
                            ),
                    decreases at,
                {
                    at -= 1;
                }
                proof {
                    lemma_insert_ranked(ranking, views[i as int], at as int);
                    let earlier = troubled(views.take(i as int));
                    assert(troubled(views.take(i + 1)) == earlier.push(views[i as int]));
                    assert(earlier.push(views[i as int]).drop_last() =~= earlier);
                    assert(ranked(earlier.push(views[i as int])) == insert_ranked(
                        ranked(earlier),
                        views[i as int],
                    ));
                }
                order.insert(at, i);
                assert(Seq::new(order@.len(), |k: int| views[order@[k] as int]) =~= ranking.insert(
                    at as int,
                    views[i as int],
                ));
            }
            i += 1;
        }
        assert(views.take(i as int) =~= views);
        order
    }

    /// What is wrong with an article, in words.
    fn issue_parts_text(stats: &ArticleStats) -> (text: String)
        ensures
            text@ == issue_parts(*stats),
    {
        let mut text = String::new();
        if stats.broken_outbound_links > 0 {
            text.append(format_usize(stats.broken_outbound_links).as_str());
            text.append(" broken links");
            if stats.invalid_related_articles > 0 {
                text.append(", ");
                text.append(format_usize(stats.invalid_related_articles).as_str());
                text.append(" invalid references");
            }
            assert(text@ =~= issue_parts(*stats));
        } else if stats.invalid_related_articles > 0 {
            text.append(format_usize(stats.invalid_related_articles).as_str());
            text.append(" invalid references");
            assert(text@ =~= issue_parts(*stats));
        } else if stats.has_warnings {
            text.append("warnings only");
            assert(text@ =~= issue_parts(*stats));
        }
        text
    }

    /// The line of one article in the statistics.
    fn stats_line_text(slug: &str, stats: &ArticleStats) -> (text: String)
        ensures
            text@ == stats_line((slug@, *stats)),
    {
        let mut text = String::from_str("   📄 ");
        text.append(slug);
        text.append(": ");
        text.append(Self::issue_parts_text(stats).as_str());
        text.append(" (");
        text.append(format_usize(stats.outbound_links).as_str());
        text.append(" out, ");
        text.append(format_usize(stats.inbound_links).as_str());
        text.append(" in)");
        text.append("\n");
        text
    }

    /// The block of statistics.
    fn stats_text(entries: &Vec<(String, ArticleStats)>) -> (text: String)
        ensures
            text@ == stats_block(stat_views(entries@)),
    {
        let ghost views = stat_views(entries@);
        let mut text = String::new();
        if entries.len() == 0 {
            return text;
        }
        let order = Self::rank_troubled(entries);
        let ghost ranking = ranked(troubled(views));
        let shown: usize = if order.len() > 10 {
            10
        } else {
            order.len()
        };
        assert(first_ten(ranking) =~= ranking.take(shown as int));
        let mut k: usize = 0;
        assert(ranking.take(0) =~= Seq::<StatsView>::empty());
        while k < shown
            invariant
                k <= shown <= order@.len(),
                views == stat_views(entries@),
                forall|m: int| 0 <= m < order@.len() ==> order@[m] < entries@.len(),
                ranking == Seq::new(order@.len(), |m: int| views[order@[m] as int]),
                text@ == stats_lines(ranking.take(k as int)),
            decreases shown - k,
        {
            let ghost start = text@;
            let entry = &entries[order[k]];
            proof {
                assert(ranking.take(k + 1).drop_last() =~= ranking.take(k as int));
                assert(ranking.take(k + 1).last() == (entry.0@, entry.1));
            }
            text.append(Self::stats_line_text(entry.0.as_str(), &entry.1).as_str());
            k += 1;
        }
        let mut block = String::from_str("\n📈 Article Statistics:\n");
        block.append(text.as_str());
        block
    }

    /// The closing advice.
    fn advice_text(summary: &ValidationSummary) -> (text: String)
        ensures
            text@ == advice_block(*summary),
    {
        let mut text = String::new();
        if summary.broken_links > 0 || summary.invalid_references > 0 {
            text.append("\n💡 Recommendations:\n");
            text.append("   • Fix broken links by updating article references\n");
            text.append("   • Remove invalid entries from related_articles in front matter\n");
            text.append(
                "   • Consider creating missing articles if they are frequently referenced\n",
            );
            assert(text@ =~= "\n💡 Recommendations:\n"@
                + "   • Fix broken links by updating article references\n"@
                + "   • Remove invalid entries from related_articles in front matter\n"@
                + "   • Consider creating missing articles if they are frequently referenced\n"@);
        }
        let ghost start = text@;
        if summary.orphaned_articles > 0 {
            text.append("   • Add links to/from orphaned articles to improve connectivity\n");
        } else {
            assert(text@ =~= start + Seq::<char>::empty());
        }
        text
    }

    /// The report as text for a terminal: heading with the date, totals,
    /// numbered errors and warnings, the ten articles with the most
    /// issues, and advice.
    pub fn format_console(report: &ValidationReport) -> (output: String)
        ensures
            output@ == console_text(*report),
    {
        let mut output = String::from_str("🔍 Link Validation Report\n");
        output.append("📅 Generated: ");
        output.append(report.validation_date.as_str());
        output.append("\n\n");
        assert(output@ =~= report_header(report.validation_date@));
        output.append(Self::summary_text(&report.summary).as_str());
        output.append(Self::errors_text(&report.errors).as_str());
        output.append(Self::warnings_text(&report.warnings).as_str());
        output.append(Self::stats_text(&report.article_stats).as_str());
        output.append(Self::advice_text(&report.summary).as_str());
        output
    }
}

} // verus!
