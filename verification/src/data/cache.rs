//! An in-memory cache of loaded article data.
//!
//! The cache is not a shared store: it is changed through `&mut self`, and
//! clones do not share their contents.

use vstd::prelude::*;
use crate::data::types::{ArticlesData, ProcessedArticle};
use crate::text::str_eq;

verus! {

/// A table from strings to values in which no key occurs twice. Entries
/// stay in the order in which their keys first came.
#[derive(Debug, Clone)]
pub struct StringTable<V> {
    entries: Vec<(String, V)>,
}

impl<V> StringTable<V> {
    /// The entries, in the order in which their keys first came.
    pub closed spec fn entries(&self) -> Seq<(String, V)> {
        self.entries@
    }

    /// The table has an entry under `key`.
    pub open spec fn has(&self, key: Seq<char>) -> bool {
        exists|i: int| 0 <= i < self.entries().len() && (#[trigger] self.entries()[i]).0@ == key
    }

    /// The index of the entry under `key`.
    pub open spec fn index_of(&self, key: Seq<char>) -> int {
        choose|i: int| 0 <= i < self.entries().len() && (#[trigger] self.entries()[i]).0@ == key
    }

    /// The value under `key`.
    pub open spec fn value(&self, key: Seq<char>) -> V {
        self.entries()[self.index_of(key)].1
    }

    /// No key occurs twice.
    pub open spec fn wf(&self) -> bool {
        forall|i: int, j: int|
            0 <= i < j < self.entries().len() ==> (#[trigger] self.entries()[i]).0@ != (
            #[trigger] self.entries()[j]).0@
    }

    /// An empty table.
    pub fn new() -> (table: Self)
        ensures
            table.wf(),
            table.entries().len() == 0,
    {
        StringTable { entries: Vec::new() }
    }

    /// The index of the entry under `key`.
    fn find(&self, key: &str) -> (found: Option<usize>)
        requires
            self.wf(),
        ensures
            found is Some <==> self.has(key@),
            found matches Some(i) ==> i == self.index_of(key@) && i < self.entries().len()
                && self.entries()[i as int].0@ == key@,
    {
        let mut i: usize = 0;
        while i < self.entries.len()
            invariant
                i <= self.entries.len(),
                forall|j: int| 0 <= j < i ==> (#[trigger] self.entries()[j]).0@ != key@,
                self.wf(),
            decreases self.entries.len() - i,
        {
            if str_eq(self.entries[i].0.as_str(), key) {
                proof {
                    let chosen = self.index_of(key@);
                    assert(self.entries()[i as int].0@ == key@);
                    assert(self.entries()[chosen].0@ == key@);
                    if chosen < i {
                        assert(self.entries()[chosen].0@ != self.entries()[i as int].0@);
                    } else if i < chosen {
                        assert(self.entries()[i as int].0@ != self.entries()[chosen].0@);
                    }
                }
                return Some(i);
            }
            i += 1;
        }
        None
    }

    /// Puts `value` under `key`: in place of the value that was there, or
    /// as a new last entry.
    pub fn insert(&mut self, key: String, value: V)
        requires
            old(self).wf(),
        ensures
            final(self).wf(),
            final(self).has(key@),
            final(self).value(key@) == value,
            old(self).has(key@) ==> final(self).entries() == old(self).entries().update(
                old(self).index_of(key@),
                (key, value),
            ),
            !old(self).has(key@) ==> final(self).entries() == old(self).entries().push(
                (key, value),
            ),
    {
        let ghost before = *self;
        match self.find(key.as_str()) {
            Some(i) => {
                self.entries[i] = (key, value);
                proof {
                    assert(self.entries() =~= before.entries().update(i as int, (key, value)));
                    assert(self.entries()[i as int].0@ == key@);
                    self.lemma_index(i as int);
                }
            },
            None => {
                self.entries.push((key, value));
                proof {
                    let n = before.entries().len() as int;
                    assert(self.entries()[n].0@ == key@);
                    self.lemma_index(n);
                }
            },
        }
    }

    /// Where keys are unique, the key at index `i` has `index_of` equal to
    /// `i`.
    pub proof fn lemma_index(&self, i: int)
        requires
            self.wf(),
            0 <= i < self.entries().len(),
        ensures
            self.has(self.entries()[i].0@),
            self.index_of(self.entries()[i].0@) == i,
            self.value(self.entries()[i].0@) == self.entries()[i].1,
    {
        let key = self.entries()[i].0@;
        let chosen = self.index_of(key);
        assert(self.entries()[chosen].0@ == key);
        if chosen < i {
            assert(self.entries()[chosen].0@ != self.entries()[i].0@);
        } else if i < chosen {
            assert(self.entries()[i].0@ != self.entries()[chosen].0@);
        }
    }

    /// The value under `key`.
    pub fn get(&self, key: &str) -> (found: Option<&V>)
        requires
            self.wf(),
        ensures
            found is Some <==> self.has(key@),
            found matches Some(value) ==> *value == self.value(key@),
    {
        match self.find(key) {
            Some(i) => Some(&self.entries[i].1),
            None => None,
        }
    }

    /// The number of entries.
    pub fn len(&self) -> (count: usize)
        ensures
            count == self.entries().len(),
    {
        self.entries.len()
    }

    /// Removes every entry.
    pub fn clear(&mut self)
        ensures
            final(self).wf(),
            final(self).entries().len() == 0,
    {
        self.entries.clear();
    }
}

/// What the cache holds at one moment.
#[derive(Debug, Clone, Copy, PartialEq, Eq, Structural)]
pub struct CacheStats {
    pub has_articles: bool,
    pub cached_articles_count: usize,
    pub cached_content_count: usize,
}

/// A cache of the article collection, of single articles by slug, and of
/// article texts by file path.
///
/// A cache is a plain value with one owner. A clone of it is a copy of what
/// it holds at that moment: what is cached in the one afterwards is not
/// seen in the other. Code that wants several holders to see one cache
/// shares a single value among them.
#[derive(Debug, Clone)]
pub struct DataCache {
    articles_cache: Option<ArticlesData>,
    article_cache: StringTable<ProcessedArticle>,
    content_cache: StringTable<String>,
}

impl DataCache {
    /// The cached article collection.
    pub closed spec fn articles(&self) -> Option<ArticlesData> {
        self.articles_cache
    }

    /// The cached articles, by slug.
    pub closed spec fn by_slug(&self) -> StringTable<ProcessedArticle> {
        self.article_cache
    }

    /// The cached article texts, by file path.
    pub closed spec fn contents(&self) -> StringTable<String> {
        self.content_cache
    }

    /// The invariant of the cache: both tables are well formed.
    pub open spec fn wf(&self) -> bool {
        self.by_slug().wf() && self.contents().wf()
    }

    /// An empty cache.
    pub fn new() -> (cache: Self)
        ensures
            cache.wf(),
            cache.articles() is None,
            cache.by_slug().entries().len() == 0,
            cache.contents().entries().len() == 0,
    {
        DataCache {
            articles_cache: None,
            article_cache: StringTable::new(),
            content_cache: StringTable::new(),
        }
    }

    /// Caches the article collection in place of the one cached before.
    pub fn cache_articles(&mut self, data: ArticlesData)
        ensures
            final(self).articles() == Some(data),
            final(self).by_slug() == old(self).by_slug(),
            final(self).contents() == old(self).contents(),
    {
        self.articles_cache = Some(data);
    }

    /// The cached article collection.
    pub fn get_articles(&self) -> (data: Option<&ArticlesData>)
        ensures
            data is Some <==> self.articles() is Some,
            data matches Some(found) ==> *found == self.articles()->0,
    {
        self.articles_cache.as_ref()
    }

    /// Caches an article under its slug, in place of the one cached under
    /// that slug before.
    pub fn cache_article(&mut self, slug: String, article: ProcessedArticle)
        requires
            old(self).wf(),
        ensures
            final(self).wf(),
            final(self).articles() == old(self).articles(),
            final(self).contents() == old(self).contents(),
            final(self).by_slug().has(slug@),
            final(self).by_slug().value(slug@) == article,
            old(self).by_slug().has(slug@) ==> final(self).by_slug().entries() == old(self).by_slug().entries().update(old(self).by_slug().index_of(slug@), (slug, article)),
            !old(self).by_slug().has(slug@) ==> final(self).by_slug().entries() == old(self).by_slug().entries().push((slug, article)),
    {
        self.article_cache.insert(slug, article);
    }

    /// The article cached under a slug.
    pub fn get_article(&self, slug: &str) -> (article: Option<&ProcessedArticle>)
        requires
            self.wf(),
        ensures
            article is Some <==> self.by_slug().has(slug@),
            article matches Some(found) ==> *found == self.by_slug().value(slug@),
    {
        self.article_cache.get(slug)
    }

    /// Caches an article text under its file path, in place of the one
    /// cached under that path before.
    pub fn cache_content(&mut self, file_path: String, content: String)
        requires
            old(self).wf(),
        ensures
            final(self).wf(),
            final(self).articles() == old(self).articles(),
            final(self).by_slug() == old(self).by_slug(),
            final(self).contents().has(file_path@),
            final(self).contents().value(file_path@) == content,
            old(self).contents().has(file_path@) ==> final(self).contents().entries() == old(self).contents().entries().update(
                old(self).contents().index_of(file_path@),
                (file_path, content),
            ),
            !old(self).contents().has(file_path@) ==> final(self).contents().entries() == old(self).contents().entries().push((file_path, content)),
    {
        self.content_cache.insert(file_path, content);
    }

    /// The article text cached under a file path.
    pub fn get_content(&self, file_path: &str) -> (content: Option<&String>)
        requires
            self.wf(),
        ensures
            content is Some <==> self.contents().has(file_path@),
            content matches Some(found) ==> *found == self.contents().value(file_path@),
    {
        self.content_cache.get(file_path)
    }

    /// Empties the cache.
    pub fn clear(&mut self)
        ensures
            final(self).wf(),
            final(self).articles() is None,
            final(self).by_slug().entries().len() == 0,
            final(self).contents().entries().len() == 0,
    {
        self.articles_cache = None;
        self.article_cache.clear();
        self.content_cache.clear();
    }

    /// What the cache holds: whether it has the article collection, and
    /// how many articles and texts.
    pub fn stats(&self) -> (stats: CacheStats)
        ensures
            stats.has_articles == self.articles() is Some,
            stats.cached_articles_count == self.by_slug().entries().len(),
            stats.cached_content_count == self.contents().entries().len(),
    {
        CacheStats {
            has_articles: self.articles_cache.is_some(),
            cached_articles_count: self.article_cache.len(),
            cached_content_count: self.content_cache.len(),
        }
    }
}

} // verus!
