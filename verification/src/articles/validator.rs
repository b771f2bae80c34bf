//! The check of the links between articles, and its report.

use vstd::prelude::*;
use vstd::string::StringExecFns;
use crate::articles::links::ExtractedLink;
use crate::articles::metadata::ArticleMetadata;
use crate::text::str_eq;

verus! {

/// An article as the link validator sees it.
#[derive(Debug, Clone)]
pub struct ProcessedArticleRef {
    pub slug: String,
    pub title: String,
    pub outbound_links: Vec<ExtractedLink>,
    pub inbound_links: Vec<String>,
    pub metadata: ArticleMetadata,
}

/// What is wrong with a reference.
#[derive(Debug, Clone, Copy, PartialEq, Eq, Structural)]
pub enum ValidationErrorType {
    BrokenLink,
    InvalidRelatedArticle,
    MissingMetadata,
    InvalidMetadata,
    CircularReference,
    OrphanedArticle,
}

/// What is doubtful about an article.
#[derive(Debug, Clone, Copy, PartialEq, Eq, Structural)]
pub enum ValidationWarningType {
    UnusedTag,
    LowImportanceWithManyLinks,
    HighImportanceWithFewLinks,
    MissingBacklinks,
    InconsistentCasing,
}

/// One reference that leads nowhere.
#[derive(Debug, Clone)]
pub struct ValidationError {
    pub error_type: ValidationErrorType,
    pub source_article: String,
    pub target_slug: String,
    pub context: Option<String>,
    pub suggestion: Option<String>,
}

/// One doubt about an article.
#[derive(Debug, Clone)]
pub struct ValidationWarning {
    pub warning_type: ValidationWarningType,
    pub source_article: String,
    pub target_reference: Option<String>,
    pub context: Option<String>,
    pub suggestion: Option<String>,
}

/// The totals of a report.
#[derive(Debug, Clone, Copy, PartialEq, Eq, Structural)]
pub struct ValidationSummary {
    pub total_articles: usize,
    pub total_links: usize,
    pub broken_links: usize,
    pub invalid_references: usize,
    pub orphaned_articles: usize,
    pub articles_with_errors: usize,
    pub articles_with_warnings: usize,
}

/// The counts of one article.
#[derive(Debug, Clone, Copy, PartialEq, Eq, Structural)]
pub struct ArticleStats {
    pub outbound_links: usize,
    pub inbound_links: usize,
    pub broken_outbound_links: usize,
    pub invalid_related_articles: usize,
    pub has_errors: bool,
    pub has_warnings: bool,
}

/// The result of checking the links of a set of articles.
#[derive(Debug, Clone)]
pub struct ValidationReport {
    pub validation_date: String,
    pub summary: ValidationSummary,
    pub errors: Vec<ValidationError>,
    pub warnings: Vec<ValidationWarning>,
    /// The counts of each article, by slug, in the order of the articles.
    pub article_stats: Vec<(String, ArticleStats)>,
}

/// A validation error with its texts as character sequences.
pub struct ErrorView {
    pub error_type: ValidationErrorType,
    pub source_article: Seq<char>,
    pub target_slug: Seq<char>,
    pub context: Option<Seq<char>>,
    pub suggestion: Option<Seq<char>>,
}

impl View for ValidationError {
    type V = ErrorView;

    open spec fn view(&self) -> ErrorView {
        ErrorView {
            error_type: self.error_type,
            source_article: self.source_article@,
            target_slug: self.target_slug@,
            context: match self.context {
                Some(text) => Some(text@),
                None => None,
            },
            suggestion: match self.suggestion {
                Some(text) => Some(text@),
                None => None,
            },
        }
    }
}

/// The views of a sequence of errors.
pub open spec fn error_views(errors: Seq<ValidationError>) -> Seq<ErrorView> {
    Seq::new(errors.len(), |i: int| errors[i]@)
}

/// A count limited to what a machine word holds.
pub open spec fn clip(count: nat) -> usize {
    if count > usize::MAX {
        usize::MAX
    } else {
        count as usize
    }
}

/// Some article has this slug.
pub open spec fn slug_known(articles: Seq<ProcessedArticleRef>, slug: Seq<char>) -> bool {
    exists|i: int| 0 <= i < articles.len() && (#[trigger] articles[i]).slug@ == slug
}

/// The error for a link of `source` that leads to no article.
pub open spec fn broken_link_error(source: Seq<char>, link: ExtractedLink) -> ErrorView {
    ErrorView {
        error_type: ValidationErrorType::BrokenLink,
        source_article: source,
        target_slug: link.target_slug@,
        context: Some(link.original_text@),
        suggestion: None,
    }
}

/// The error for a related article of `source` that does not exist.
pub open spec fn invalid_related_error(source: Seq<char>, related: String) -> ErrorView {
    ErrorView {
        error_type: ValidationErrorType::InvalidRelatedArticle,
        source_article: source,
        target_slug: related@,
        context: None,
        suggestion: None,
    }
}

/// The errors for those of `links` that lead to no article, in order.
pub open spec fn link_errors(
    articles: Seq<ProcessedArticleRef>,
    source: Seq<char>,
    links: Seq<ExtractedLink>,
) -> Seq<ErrorView>
    decreases links.len(),
{
    if links.len() == 0 {
        Seq::empty()
    } else {
        let earlier = link_errors(articles, source, links.drop_last());
        if slug_known(articles, links.last().target_slug@) {
            earlier
        } else {
            earlier.push(broken_link_error(source, links.last()))
        }
    }
}

/// The errors for those of the related articles that do not exist, in
/// order.
pub open spec fn related_errors(
    articles: Seq<ProcessedArticleRef>,
    source: Seq<char>,
    related: Seq<String>,
) -> Seq<ErrorView>
    decreases related.len(),
{
    if related.len() == 0 {
        Seq::empty()
    } else {
        let earlier = related_errors(articles, source, related.drop_last());
        if slug_known(articles, related.last()@) {
            earlier
        } else {
            earlier.push(invalid_related_error(source, related.last()))
        }
    }
}

/// The errors of one article: its broken links, then its related articles
/// that do not exist.
pub open spec fn article_errors(
    articles: Seq<ProcessedArticleRef>,
    article: ProcessedArticleRef,
) -> Seq<ErrorView> {
    link_errors(articles, article.slug@, article.outbound_links@) + related_errors(
        articles,
        article.slug@,
        article.metadata.related_articles@,
    )
}

/// The errors of the first `count` articles, article by article.
pub open spec fn errors_upto(articles: Seq<ProcessedArticleRef>, count: nat) -> Seq<ErrorView>
    decreases count,
{
    if count == 0 || count > articles.len() {
        Seq::empty()
    } else {
        errors_upto(articles, (count - 1) as nat) + article_errors(articles, articles[count - 1])
    }
}

/// How many of `links` lead to the article `slug`.
pub open spec fn links_to(links: Seq<ExtractedLink>, slug: Seq<char>) -> nat
    decreases links.len(),
{
    if links.len() == 0 {
        0
    } else {
        links_to(links.drop_last(), slug) + if links.last().target_slug@ == slug {
            1nat
        } else {
            0nat
        }
    }
}

/// How many links of the first `count` articles lead to the article
/// `slug`.
pub open spec fn inbound_upto(articles: Seq<ProcessedArticleRef>, count: nat, slug: Seq<char>) -> nat
    decreases count,
{
    if count == 0 || count > articles.len() {
        0
    } else {
        inbound_upto(articles, (count - 1) as nat, slug) + links_to(
            articles[count - 1].outbound_links@,
            slug,
        )
    }
}

/// How many links the first `count` articles hold.
pub open spec fn links_upto(articles: Seq<ProcessedArticleRef>, count: nat) -> nat
    decreases count,
{
    if count == 0 || count > articles.len() {
        0
    } else {
        links_upto(articles, (count - 1) as nat) + articles[count - 1].outbound_links@.len()
    }
}

/// The counts of one article among `articles`.
pub open spec fn stats_of(articles: Seq<ProcessedArticleRef>, article: ProcessedArticleRef) -> ArticleStats {
    let broken = link_errors(articles, article.slug@, article.outbound_links@).len();
    let invalid = related_errors(
        articles,
        article.slug@,
        article.metadata.related_articles@,
    ).len();
    ArticleStats {
        outbound_links: article.outbound_links@.len() as usize,
        inbound_links: clip(inbound_upto(articles, articles.len(), article.slug@)),
        broken_outbound_links: broken as usize,
        invalid_related_articles: invalid as usize,
        has_errors: broken + invalid > 0,
        has_warnings: false,
    }
}

/// The article has no link and no article links to it.
pub open spec fn is_orphan(articles: Seq<ProcessedArticleRef>, article: ProcessedArticleRef) -> bool {
    article.outbound_links@.len() == 0 && inbound_upto(articles, articles.len(), article.slug@)
        == 0
}

/// How many of the first `count` articles satisfy `holds`.
pub open spec fn count_upto(
    articles: Seq<ProcessedArticleRef>,
    count: nat,
    holds: spec_fn(ProcessedArticleRef) -> bool,
) -> nat
    decreases count,
{
    if count == 0 || count > articles.len() {
        0
    } else {
        count_upto(articles, (count - 1) as nat, holds) + if holds(articles[count - 1]) {
            1nat
        } else {
            0nat
        }
    }
}

/// How many of the errors have the given type.
pub open spec fn count_type(errors: Seq<ErrorView>, error_type: ValidationErrorType) -> nat
    decreases errors.len(),
{
    if errors.len() == 0 {
        0
    } else {
        count_type(errors.drop_last(), error_type) + if errors.last().error_type == error_type {
            1nat
        } else {
            0nat
        }
    }
}

/// The sum of two counts, limited to what a machine word holds.
pub fn add_clipped(a: usize, b: usize) -> (sum: usize)
    ensures
        sum == clip((a + b) as nat),
{
    if a > usize::MAX - b {
        usize::MAX
    } else {
        a + b
    }
}

/// The report holds what the check of `articles` finds: the errors of the
/// articles in order, no warnings, the counts of every article, and the
/// totals.
pub open spec fn report_matches(articles: Seq<ProcessedArticleRef>, report: ValidationReport) -> bool {
    let errors = errors_upto(articles, articles.len());
    &&& error_views(report.errors@) == errors
    &&& report.warnings@.len() == 0
    &&& report.article_stats@.len() == articles.len()
    &&& forall|i: int|
        0 <= i < articles.len() ==> (#[trigger] report.article_stats@[i]).0@ == articles[i].slug@
            && report.article_stats@[i].1 == stats_of(articles, articles[i])
    &&& report.summary.total_articles == articles.len()
    &&& report.summary.total_links == clip(links_upto(articles, articles.len()))
    &&& report.summary.broken_links == count_type(errors, ValidationErrorType::BrokenLink)
    &&& report.summary.invalid_references == count_type(
        errors,
        ValidationErrorType::InvalidRelatedArticle,
    )
    &&& report.summary.orphaned_articles == count_upto(
        articles,
        articles.len(),
        |article: ProcessedArticleRef| is_orphan(articles, article),
    )
    &&& report.summary.articles_with_errors == count_upto(
        articles,
        articles.len(),
        |article: ProcessedArticleRef| article_errors(articles, article).len() > 0,
    )
    &&& report.summary.articles_with_warnings == 0
}

/// The present moment as an RFC 3339 text, from `chrono::Utc::now` and
/// `DateTime::to_rfc3339`. Nothing is stated of the result: it differs from
/// call to call.
#[verifier::external_body]
fn now_rfc3339() -> String {
    chrono::Utc::now().to_rfc3339()
}

/// Checks that the links and related articles of a set of articles lead to
/// articles of the set.
pub struct LinkValidator<'a> {
    articles: &'a Vec<ProcessedArticleRef>,
}

impl<'a> LinkValidator<'a> {
    /// The articles that are checked.
    pub closed spec fn articles(&self) -> Seq<ProcessedArticleRef> {
        self.articles@
    }

    /// A validator of these articles.
    pub fn new(articles: &'a Vec<ProcessedArticleRef>) -> (validator: Self)
        ensures
            validator.articles() == articles@,
    {
        LinkValidator { articles }
    }

    /// Whether some article has this slug.
    pub fn knows(&self, slug: &str) -> (known: bool)
        ensures
            known == slug_known(self.articles(), slug@),
    {
        let mut i: usize = 0;
        while i < self.articles.len()
            invariant
                i <= self.articles.len(),
                forall|j: int| 0 <= j < i ==> (#[trigger] self.articles()[j]).slug@ != slug@,
            decreases self.articles.len() - i,
        {
            if str_eq(self.articles[i].slug.as_str(), slug) {
                return true;
            }
            i += 1;
        }
        false
    }

    /// How many links of all articles lead to the article `slug`, limited
    /// to what a machine word holds.
    pub fn inbound_count(&self, slug: &str) -> (count: usize)
        ensures
            count == clip(inbound_upto(self.articles(), self.articles().len(), slug@)),
    {
        let mut count: usize = 0;
        let mut i: usize = 0;
        while i < self.articles.len()
            invariant
                i <= self.articles.len(),
                count == clip(inbound_upto(self.articles(), i as nat, slug@)),
            decreases self.articles.len() - i,
        {
            let links = &self.articles[i].outbound_links;
            let mut here: usize = 0;
            let mut k: usize = 0;
            while k < links.len()
                invariant
                    k <= links.len(),
                    here == links_to(links@.take(k as int), slug@),
                    here <= k,
                decreases links.len() - k,
            {
                proof {
                    assert(links@.take(k + 1).drop_last() =~= links@.take(k as int));
                }
                if str_eq(links[k].target_slug.as_str(), slug) {
                    here += 1;
                }
                k += 1;
            }
            assert(links@.take(k as int) =~= links@);
            count = add_clipped(count, here);
            i += 1;
        }
        count
    }

    /// Checks the articles and reports under the given date.
    pub fn validate_at(&self, validation_date: String) -> (report: ValidationReport)
        ensures
            report.validation_date@ == validation_date@,
            report_matches(self.articles(), report),
    {
        let ghost articles = self.articles();
        let mut errors: Vec<ValidationError> = Vec::new();
        let mut article_stats: Vec<(String, ArticleStats)> = Vec::new();
        let mut total_links: usize = 0;
        let mut broken_total: usize = 0;
        let mut invalid_total: usize = 0;
        let mut orphaned: usize = 0;
        let mut with_errors: usize = 0;
        let mut i: usize = 0;
        assert(error_views(errors@) =~= errors_upto(articles, 0));
        while i < self.articles.len()
            invariant
                i <= self.articles.len(),
                articles == self.articles(),
                error_views(errors@) == errors_upto(articles, i as nat),
                article_stats@.len() == i,
                forall|j: int|
                    0 <= j < i ==> (#[trigger] article_stats@[j]).0@ == articles[j].slug@
                        && article_stats@[j].1 == stats_of(articles, articles[j]),
                total_links == clip(links_upto(articles, i as nat)),
                broken_total == count_type(
                    errors_upto(articles, i as nat),
                    ValidationErrorType::BrokenLink,
                ),
                invalid_total == count_type(
                    errors_upto(articles, i as nat),
                    ValidationErrorType::InvalidRelatedArticle,
                ),
                broken_total + invalid_total == errors@.len(),
                orphaned <= i,
                orphaned == count_upto(
                    articles,
                    i as nat,
                    |article: ProcessedArticleRef| is_orphan(articles, article),
                ),
                with_errors <= i,
                with_errors == count_upto(
                    articles,
                    i as nat,
                    |article: ProcessedArticleRef| article_errors(articles, article).len() > 0,
                ),
            decreases self.articles.len() - i,
        {
            let article = &self.articles[i];
            let ghost source = article.slug@;
            let ghost errors_before = error_views(errors@);
            let mut broken: usize = 0;
            let mut k: usize = 0;
            assert(article.outbound_links@.take(0) =~= Seq::<ExtractedLink>::empty());
            while k < article.outbound_links.len()
                invariant
                    k <= article.outbound_links.len(),
                    articles == self.articles(),
                    source == article.slug@,
                    error_views(errors@) == errors_before + link_errors(
                        articles,
                        source,
                        article.outbound_links@.take(k as int),
                    ),
                    broken == link_errors(
                        articles,
                        source,
                        article.outbound_links@.take(k as int),
                    ).len(),
                    broken <= k,
                    broken_total == count_type(error_views(errors@), ValidationErrorType::BrokenLink),
                    invalid_total == count_type(
                        error_views(errors@),
                        ValidationErrorType::InvalidRelatedArticle,
                    ),
                    broken_total + invalid_total == errors@.len(),
                decreases article.outbound_links.len() - k,
            {
                let link = &article.outbound_links[k];
                proof {
                    assert(article.outbound_links@.take(k + 1).drop_last()
                        =~= article.outbound_links@.take(k as int));
                }
                if !self.knows(link.target_slug.as_str()) {
                    let ghost views_before = error_views(errors@);
                    let error = ValidationError {
                        error_type: ValidationErrorType::BrokenLink,
                        source_article: article.slug.clone(),
                        target_slug: link.target_slug.clone(),
                        context: Some(link.original_text.clone()),
                        suggestion: None,
                    };
                    assert(error@ == broken_link_error(source, *link));
                    errors.push(error);
                    proof {
                        assert(error_views(errors@) =~= views_before.push(error@));
                        assert(error_views(errors@).drop_last() =~= views_before);
                        assert(error_views(errors@) =~= errors_before + link_errors(
                            articles,
                            source,
                            article.outbound_links@.take(k + 1),
                        ));
                    }
                    let listed = errors.len();
                    assert(broken_total + invalid_total + 1 == listed);
                    broken += 1;
                    broken_total += 1;
                }
                k += 1;
            }
            assert(article.outbound_links@.take(k as int) =~= article.outbound_links@);
            let ghost after_links = error_views(errors@);
            let related = &article.metadata.related_articles;
            let mut invalid: usize = 0;
            let mut r: usize = 0;
            assert(related@.take(0) =~= Seq::<String>::empty());
            assert(error_views(errors@) =~= after_links + related_errors(
                articles,
                source,
                related@.take(0),
            ));
            while r < related.len()
                invariant
                    r <= related.len(),
                    articles == self.articles(),
                    source == article.slug@,
                    error_views(errors@) == after_links + related_errors(
                        articles,
                        source,
                        related@.take(r as int),
                    ),
                    invalid == related_errors(articles, source, related@.take(r as int)).len(),
                    invalid <= r,
                    broken_total == count_type(error_views(errors@), ValidationErrorType::BrokenLink),
                    invalid_total == count_type(
                        error_views(errors@),
                        ValidationErrorType::InvalidRelatedArticle,
                    ),
                    broken_total + invalid_total == errors@.len(),
                decreases related.len() - r,
            {
                let name = &related[r];
                proof {
                    assert(related@.take(r + 1).drop_last() =~= related@.take(r as int));
                }
                if !self.knows(name.as_str()) {
                    let ghost views_before = error_views(errors@);
                    let error = ValidationError {
                        error_type: ValidationErrorType::InvalidRelatedArticle,
                        source_article: article.slug.clone(),
                        target_slug: name.clone(),
                        context: None,
                        suggestion: None,
                    };
                    assert(error@ == invalid_related_error(source, *name));
                    errors.push(error);
                    proof {
                        assert(error_views(errors@) =~= views_before.push(error@));
                        assert(error_views(errors@).drop_last() =~= views_before);
                        assert(error_views(errors@) =~= after_links + related_errors(
                            articles,
                            source,
                            related@.take(r + 1),
                        ));
                    }
                    let listed = errors.len();
                    assert(broken_total + invalid_total + 1 == listed);
                    invalid += 1;
                    invalid_total += 1;
                }
                r += 1;
            }
            assert(related@.take(r as int) =~= related@);
            proof {
                assert(error_views(errors@) =~= errors_upto(articles, (i + 1) as nat));
            }
            let inbound = self.inbound_count(article.slug.as_str());
            let has_errors = broken > 0 || invalid > 0;
            article_stats.push(
                (
                    article.slug.clone(),
                    ArticleStats {
                        outbound_links: article.outbound_links.len(),
                        inbound_links: inbound,
                        broken_outbound_links: broken,
                        invalid_related_articles: invalid,
                        has_errors,
                        has_warnings: false,
                    },
                ),
            );
            total_links = add_clipped(total_links, article.outbound_links.len());
            if has_errors {
                with_errors += 1;
            }
            if article.outbound_links.len() == 0 && inbound == 0 {
                orphaned += 1;
            }
            i += 1;
        }
        ValidationReport {
            validation_date,
            summary: ValidationSummary {
                total_articles: self.articles.len(),
                total_links,
                broken_links: broken_total,
                invalid_references: invalid_total,
                orphaned_articles: orphaned,
                articles_with_errors: with_errors,
                articles_with_warnings: 0,
            },
            errors,
            warnings: Vec::new(),
            article_stats,
        }
    }

    /// Checks the articles and reports under the present moment.
    pub fn validate(&self) -> (report: ValidationReport)
        ensures
            report_matches(self.articles(), report),
    {
        self.validate_at(now_rfc3339())
    }
}

} // verus!
