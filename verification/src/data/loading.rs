//! What the loader decides once the network has answered.

use vstd::prelude::*;
use vstd::string::StringExecFns;
use crate::data::types::{ArticlesData, DataLoadError, LightweightArticle, ProcessedArticle};
use crate::text::{decimal, format_usize, str_eq};

verus! {

/// The time that stands for "never generated".
pub const EPOCH: &'static str = "1970-01-01T00:00:00Z";

/// The index of the first article with the given slug.
pub open spec fn first_with_slug(articles: Seq<ProcessedArticle>, slug: Seq<char>) -> Option<int> {
    if exists|i: int| 0 <= i < articles.len() && (#[trigger] articles[i]).slug@ == slug {
        Some(
            choose|i: int|
                0 <= i < articles.len() && (#[trigger] articles[i]).slug@ == slug && forall|j: int|
                    0 <= j < i ==> (#[trigger] articles[j]).slug@ != slug,
        )
    } else {
        None
    }
}

/// The articles for list display, in order.
pub open spec fn lightweight_of(articles: Seq<ProcessedArticle>) -> Seq<LightweightArticle> {
    Seq::new(articles.len(), |i: int| LightweightArticle::of(articles[i]))
}

/// The loaded articles, or an empty collection where loading failed: the
/// page is shown without articles rather than not at all.
pub fn articles_or_fallback(loaded: Result<ArticlesData, DataLoadError>) -> (data: ArticlesData)
    ensures
        loaded matches Ok(found) ==> data == found,
        loaded is Err ==> data.articles@.len() == 0 && data.generated_at@ == EPOCH@
            && data.total_count == 0 && data.home_articles@.len() == 0,
{
    match loaded {
        Ok(found) => found,
        Err(_) => ArticlesData {
            articles: Vec::new(),
            generated_at: String::from_str(EPOCH),
            total_count: 0,
            home_articles: Vec::new(),
        },
    }
}

/// The first article with the given slug, taken out of the collection, or
/// the error that names the slug.
pub fn find_article_by_slug(data: ArticlesData, slug: &str) -> (found: Result<ProcessedArticle, DataLoadError>)
    ensures
        found is Ok <==> first_with_slug(data.articles@, slug@) is Some,
        found matches Ok(article) ==> article == data.articles@[first_with_slug(
            data.articles@,
            slug@,
        )->0],
        found matches Err(error) ==> error matches DataLoadError::NotFound(message) && message@
            == "Article not found: "@ + slug@,
{
    let mut articles = data.articles;
    let mut i: usize = 0;
    while i < articles.len()
        invariant
            i <= articles.len(),
            articles@ == data.articles@,
            forall|j: int| 0 <= j < i ==> (#[trigger] articles@[j]).slug@ != slug@,
        decreases articles.len() - i,
    {
        if str_eq(articles[i].slug.as_str(), slug) {
            proof {
                let chosen = first_with_slug(data.articles@, slug@)->0;
                assert(articles@[i as int].slug@ == slug@);
                if chosen < i {
                    assert(articles@[chosen].slug@ != slug@);
                } else if i < chosen {
                    assert(articles@[i as int].slug@ != slug@);
                }
            }
            return Ok(articles.remove(i));
        }
        i += 1;
    }
    Err(DataLoadError::NotFound(String::from_str("Article not found: ").concat(slug)))
}

/// The error for an answer whose status is not a success.
pub fn http_failure(status: u16, status_text: &str) -> (error: DataLoadError)
    ensures
        error matches DataLoadError::NotFound(message) && message@ == "HTTP "@ + decimal(
            status as nat,
        ) + ": "@ + status_text@,
{
    DataLoadError::NotFound(
        String::from_str("HTTP ").concat(format_usize(status as usize).as_str()).concat(
            ": ",
        ).concat(status_text),
    )
}

/// The articles for list display, in order.
pub fn to_lightweight(articles: Vec<ProcessedArticle>) -> (light: Vec<LightweightArticle>)
    ensures
        light@ == lightweight_of(articles@),
{
    let mut rest = articles;
    let mut reversed: Vec<LightweightArticle> = Vec::new();
    let ghost total = articles@.len();
    while rest.len() > 0
        invariant
            rest@.len() + reversed@.len() == total,
            total == articles@.len(),
            rest@ == articles@.subrange(0, rest@.len() as int),
            forall|k: int|
                0 <= k < reversed@.len() ==> reversed@[k] == LightweightArticle::of(
                    articles@[total - 1 - k],
                ),
        decreases rest.len(),
    {
        let article = rest.pop().unwrap();
        reversed.push(LightweightArticle::from(article));
        assert(rest@ =~= articles@.subrange(0, rest@.len() as int));
    }
    let mut light: Vec<LightweightArticle> = Vec::new();
    while reversed.len() > 0
        invariant
            reversed@.len() + light@.len() == total,
            total == articles@.len(),
            forall|k: int|
                0 <= k < reversed@.len() ==> reversed@[k] == LightweightArticle::of(
                    articles@[total - 1 - k],
                ),
            forall|k: int|
                0 <= k < light@.len() ==> light@[k] == LightweightArticle::of(articles@[k]),
        decreases reversed.len(),
    {
        let article = reversed.pop().unwrap();
        light.push(article);
    }
    assert(light@ =~= lightweight_of(articles@));
    light
}

} // verus!
