//! Node sizing policy and site URL configuration.

use vstd::prelude::*;
use vstd::string::StringExecFns;
use crate::text::{
    contains, contains_text, last_segment, last_segment_of, skip_leading, starts_with,
    starts_with_text, trim_start_matches,
};

verus! {

/// Sizing parameters for graph nodes.
#[derive(Debug, Clone, Copy, PartialEq, Eq, Structural)]
pub struct NodeConfig {
    pub author_node_radius: i32,
    pub default_node_radius: i32,
    pub min_node_radius: i32,
    pub max_node_radius: i32,
    pub importance_multiplier: i32,
    pub inbound_link_multiplier: i32,
    pub default_importance: u8,
}

/// `value` limited to the closed range from `low` to `high`.
pub open spec fn clamp_int(value: int, low: int, high: int) -> int {
    if value < low {
        low
    } else if value > high {
        high
    } else {
        value
    }
}

impl NodeConfig {
    /// The values a fresh configuration holds.
    pub open spec fn defaults() -> NodeConfig {
        NodeConfig {
            author_node_radius: 160,
            default_node_radius: 30,
            min_node_radius: 20,
            max_node_radius: 80,
            importance_multiplier: 8,
            inbound_link_multiplier: 4,
            default_importance: 3,
        }
    }

    /// The radius bounds are usable: the minimum does not exceed the maximum.
    pub open spec fn bounds_ordered(self) -> bool {
        self.min_node_radius <= self.max_node_radius
    }

    /// The radius before clamping: the default radius plus one bonus per
    /// importance point and one per inbound link.
    pub open spec fn raw_radius(self, importance: u8, inbound_links: usize) -> int {
        self.default_node_radius + importance * self.importance_multiplier + inbound_links
            * self.inbound_link_multiplier
    }

    /// The radius of a node of the given importance and inbound link count.
    pub open spec fn node_radius(self, importance: u8, inbound_links: usize) -> int {
        clamp_int(
            self.raw_radius(importance, inbound_links),
            self.min_node_radius as int,
            self.max_node_radius as int,
        )
    }

    /// `radius` limited to the configured bounds.
    pub open spec fn clamped(self, radius: i32) -> int {
        clamp_int(radius as int, self.min_node_radius as int, self.max_node_radius as int)
    }

    pub fn new() -> (config: NodeConfig)
        ensures
            config == NodeConfig::defaults(),
    {
        NodeConfig {
            author_node_radius: 160,
            default_node_radius: 30,
            min_node_radius: 20,
            max_node_radius: 80,
            importance_multiplier: 8,
            inbound_link_multiplier: 4,
            default_importance: 3,
        }
    }

    pub fn get_author_node_radius(&self) -> (radius: i32)
        ensures
            radius == self.author_node_radius,
    {
        self.author_node_radius
    }

    pub fn get_default_node_radius(&self) -> (radius: i32)
        ensures
            radius == self.default_node_radius,
    {
        self.default_node_radius
    }

    pub fn get_min_node_radius(&self) -> (radius: i32)
        ensures
            radius == self.min_node_radius,
    {
        self.min_node_radius
    }

    pub fn get_max_node_radius(&self) -> (radius: i32)
        ensures
            radius == self.max_node_radius,
    {
        self.max_node_radius
    }

    pub fn get_importance_multiplier(&self) -> (multiplier: i32)
        ensures
            multiplier == self.importance_multiplier,
    {
        self.importance_multiplier
    }

    pub fn get_inbound_link_multiplier(&self) -> (multiplier: i32)
        ensures
            multiplier == self.inbound_link_multiplier,
    {
        self.inbound_link_multiplier
    }

    pub fn get_default_importance(&self) -> (importance: u8)
        ensures
            importance == self.default_importance,
    {
        self.default_importance
    }

    /// Limits `radius` to the configured bounds.
    pub fn clamp_radius(&self, radius: i32) -> (clamped: i32)
        requires
            self.bounds_ordered(),
        ensures
            clamped == self.clamped(radius),
            self.min_node_radius <= clamped <= self.max_node_radius,
    {
        if radius < self.min_node_radius {
            self.min_node_radius
        } else if radius > self.max_node_radius {
            self.max_node_radius
        } else {
            radius
        }
    }

    /// Computes a node's radius from its importance and its inbound link
    /// count, clamped to the configured bounds. The sum is formed without
    /// overflow for every input.
    pub fn calculate_node_radius(&self, importance: u8, inbound_links: usize) -> (radius: i32)
        requires
            self.bounds_ordered(),
        ensures
            radius == self.node_radius(importance, inbound_links),
            self.min_node_radius <= radius <= self.max_node_radius,
    {
        assert(-0x100_0000_0000 <= importance * self.importance_multiplier <= 0x100_0000_0000)
            by (nonlinear_arith)
            requires
                0 <= importance <= 0xff,
                -0x8000_0000 <= self.importance_multiplier <= 0x7fff_ffff,
        ;
        let importance_bonus: i128 = (importance as i128) * (self.importance_multiplier as i128);
        assert(-0x8000_0000_0000_0000_0000_0000 <= inbound_links * self.inbound_link_multiplier
            <= 0x8000_0000_0000_0000_0000_0000) by (nonlinear_arith)
            requires
                0 <= inbound_links <= 0xffff_ffff_ffff_ffff,
                -0x8000_0000 <= self.inbound_link_multiplier <= 0x7fff_ffff,
        ;
        let link_bonus: i128 = (inbound_links as i128) * (self.inbound_link_multiplier as i128);
        let calculated: i128 = (self.default_node_radius as i128) + importance_bonus + link_bonus;
        if calculated < self.min_node_radius as i128 {
            self.min_node_radius
        } else if calculated > self.max_node_radius as i128 {
            self.max_node_radius
        } else {
            calculated as i32
        }
    }
}

impl Default for NodeConfig {
    fn default() -> (config: NodeConfig)
        ensures
            config == NodeConfig::defaults(),
    {
        NodeConfig::new()
    }
}

/// Where the page was loaded from, as far as the browser tells.
#[derive(Debug, Clone)]
pub struct Location {
    pub hostname: Option<String>,
    pub pathname: Option<String>,
}

/// The paths under which the site is served and finds its files, and the
/// node sizing policy.
#[derive(Debug, Clone)]
pub struct AppConfig {
    pub base_path: String,
    pub data_path: String,
    pub articles_path: String,
    pub assets_path: String,
    pub node_config: NodeConfig,
}

/// The URL of a resource under a base path: the base path, a slash, and the
/// resource path without the slashes that it starts with.
pub open spec fn url_under(base_path: Seq<char>, resource_path: Seq<char>) -> Seq<char> {
    base_path + "/"@ + skip_leading(resource_path, '/')
}

/// The URL of an article file under a base path: the base path, the
/// articles directory, and the file name that ends `filepath`.
pub open spec fn article_url_under(base_path: Seq<char>, filepath: Seq<char>) -> Seq<char> {
    base_path + "/articles/"@ + last_segment(skip_leading(filepath, '/'), '/')
}

/// The page was loaded from the hosted site: the host name holds
/// `github.io`, or else the path holds the hosted base path.
pub open spec fn served_from_pages(location: Location, github_pages_path: Seq<char>) -> bool {
    ||| (location.hostname matches Some(hostname) && contains_text(hostname@, "github.io"@))
    ||| (location.pathname matches Some(pathname) && (starts_with_text(
        pathname@,
        github_pages_path + "/"@,
    ) || contains_text(pathname@, github_pages_path)))
}

/// The default directory of the articles.
pub open spec fn default_articles_dir(configured: Option<&str>) -> Seq<char> {
    match configured {
        Some(directory) => "../"@ + directory@,
        None => "../content/articles"@,
    }
}

impl AppConfig {
    /// The base path of the site: the local path in a debug build and
    /// wherever the page was not loaded from the hosted site, the hosted
    /// path otherwise.
    pub open spec fn base_path_for(
        debug_build: bool,
        location: Option<Location>,
        github_pages_path: Seq<char>,
        local_dev_path: Seq<char>,
    ) -> Seq<char> {
        if debug_build {
            local_dev_path
        } else {
            match location {
                Some(place) => if served_from_pages(place, github_pages_path) {
                    github_pages_path
                } else {
                    local_dev_path
                },
                None => local_dev_path,
            }
        }
    }

    /// Decides the base path from what the environment shows.
    pub fn detect_base_path(
        debug_build: bool,
        location: Option<&Location>,
        github_pages_path: &str,
        local_dev_path: &str,
    ) -> (base_path: String)
        ensures
            base_path@ == Self::base_path_for(
                debug_build,
                match location {
                    Some(place) => Some(*place),
                    None => None,
                },
                github_pages_path@,
                local_dev_path@,
            ),
    {
        if debug_build {
            return String::from_str(local_dev_path);
        }
        if let Some(place) = location {
            if let Some(hostname) = &place.hostname {
                if contains(hostname.as_str(), "github.io") {
                    return String::from_str(github_pages_path);
                }
            }
            if let Some(pathname) = &place.pathname {
                let with_slash = String::from_str(github_pages_path).concat("/");
                if starts_with(pathname.as_str(), with_slash.as_str()) || contains(
                    pathname.as_str(),
                    github_pages_path,
                ) {
                    return String::from_str(github_pages_path);
                }
            }
        }
        String::from_str(local_dev_path)
    }

    /// The configuration of a site served under `base_path`, with the
    /// default node sizing policy.
    pub fn new(base_path: String) -> (config: AppConfig)
        ensures
            config.base_path@ == base_path@,
            config.data_path@ == base_path@ + "/data"@,
            config.articles_path@ == base_path@ + "/articles"@,
            config.assets_path@ == base_path@ + "/assets"@,
            config.node_config == NodeConfig::defaults(),
    {
        let data_path = String::from_str(base_path.as_str()).concat("/data");
        let articles_path = String::from_str(base_path.as_str()).concat("/articles");
        let assets_path = String::from_str(base_path.as_str()).concat("/assets");
        AppConfig {
            base_path,
            data_path,
            articles_path,
            assets_path,
            node_config: NodeConfig::new(),
        }
    }

    /// The URL of a resource of the site.
    pub fn get_url(&self, resource_path: &str) -> (url: String)
        ensures
            url@ == url_under(self.base_path@, resource_path@),
    {
        let clean_path = trim_start_matches(resource_path, '/');
        String::from_str(self.base_path.as_str()).concat("/").concat(clean_path)
    }

    /// The URL of a data file of the site.
    pub fn data_url(&self, filename: &str) -> (url: String)
        ensures
            url@ == url_under(self.base_path@, "data/"@ + filename@),
    {
        let path = String::from_str("data/").concat(filename);
        self.get_url(path.as_str())
    }

    /// The URL of an article file of the site. Only the file name of
    /// `filepath` counts; the directories before it are dropped.
    pub fn article_url(&self, filepath: &str) -> (url: String)
        ensures
            url@ == article_url_under(self.base_path@, filepath@),
    {
        let clean_path = trim_start_matches(filepath, '/');
        let filename = last_segment_of(clean_path, '/');
        String::from_str(self.base_path.as_str()).concat("/articles/").concat(filename)
    }
}

/// The default directory of the articles: the configured directory, one
/// level up, or `../content/articles` where none is configured.
pub fn get_default_articles_dir(configured: Option<&str>) -> (directory: String)
    ensures
        directory@ == default_articles_dir(configured),
{
    match configured {
        Some(name) => String::from_str("../").concat(name),
        None => String::from_str("../content/articles"),
    }
}

#[verifier::external_type_specification]
#[verifier::external_body]
pub struct ExTomlError(toml::de::Error);

/// The entries of a top-level table of a TOML text, each with its value
/// where the value is a string. The inner `None` where the text has no
/// table of that name; the outer `None` where the text is not TOML.
pub uninterp spec fn toml_table_entries(text: Seq<char>, table: Seq<char>) -> Option<
    Option<Seq<(Seq<char>, Option<Seq<char>>)>>,
>;

/// The table of a project file that holds its paths.
pub const PATHS_TABLE: &'static str = "paths";

/// `toml::from_str` into a `toml::Value`, then `Value::get`,
/// `Value::as_table` and `Value::as_str`: the entries of a top-level
/// table, or nothing where the text has no table of that name. The result
/// depends on the text and the name of the table alone.
#[verifier::external_body]
fn read_table_entries(text: &str, table: &str) -> (entries: Result<Option<Vec<(String, Option<String>)>>, toml::de::Error>)
    ensures
        entries is Ok <==> toml_table_entries(text@, table@) is Some,
        entries matches Ok(found) ==> (found is Some <==> toml_table_entries(text@, table@)->0
            is Some),
        entries matches Ok(Some(listed)) ==> entry_views(listed@) == toml_table_entries(
            text@,
            table@,
        )->0->0,
{
    let config: toml::Value = toml::from_str(text)?;
    Ok(config.get(table).and_then(|value| value.as_table()).map(|entries| {
        entries.iter().map(|(key, value)| {
            (key.clone(), value.as_str().map(|path| path.to_string()))
        }).collect()
    }))
}

/// `toml::de::Error` as text, by its `Display`. Nothing is stated of the
/// text.
#[verifier::external_body]
fn describe_toml_error(error: &toml::de::Error) -> String {
    error.to_string()
}

/// Why a project file could not be read: it is not TOML.
#[derive(Debug, Clone, PartialEq, Eq)]
pub struct ProjectFileError {
    /// What the TOML reader says of the text.
    pub message: String,
}

/// The entries with their texts as character sequences.
pub open spec fn entry_views(entries: Seq<(String, Option<String>)>) -> Seq<(Seq<char>, Option<Seq<char>>)> {
    Seq::new(
        entries.len(),
        |i: int|
            (
                entries[i].0@,
                match entries[i].1 {
                    Some(path) => Some(path@),
                    None => None,
                },
            ),
    )
}

/// The entries whose value is a string, in order.
pub open spec fn string_paths(entries: Seq<(Seq<char>, Option<Seq<char>>)>) -> Seq<(Seq<char>, Seq<char>)>
    decreases entries.len(),
{
    if entries.len() == 0 {
        Seq::empty()
    } else {
        let earlier = string_paths(entries.drop_last());
        match entries.last().1 {
            Some(path) => earlier.push((entries.last().0, path)),
            None => earlier,
        }
    }
}

/// The paths with their texts as character sequences.
pub open spec fn path_views(paths: Seq<(String, String)>) -> Seq<(Seq<char>, Seq<char>)> {
    Seq::new(paths.len(), |i: int| (paths[i].0@, paths[i].1@))
}

/// The entries whose value is a string, in order.
pub fn keep_string_paths(entries: Vec<(String, Option<String>)>) -> (paths: Vec<(String, String)>)
    ensures
        path_views(paths@) == string_paths(entry_views(entries@)),
{
    let ghost views = entry_views(entries@);
    let mut paths: Vec<(String, String)> = Vec::new();
    let mut i: usize = 0;
    assert(views.take(0) =~= Seq::<(Seq<char>, Option<Seq<char>>)>::empty());
    assert(path_views(paths@) =~= string_paths(views.take(0)));
    while i < entries.len()
        invariant
            i <= entries.len(),
            views == entry_views(entries@),
            path_views(paths@) == string_paths(views.take(i as int)),
        decreases entries.len() - i,
    {
        proof {
            assert(views.take(i + 1).drop_last() =~= views.take(i as int));
            assert(views.take(i + 1).last() == views[i as int]);
        }
        if let Some(path) = &entries[i].1 {
            let ghost before = path_views(paths@);
            paths.push((entries[i].0.clone(), path.clone()));
            assert(path_views(paths@) =~= before.push((entries[i as int].0@, path@)));
        }
        i += 1;
    }
    assert(views.take(i as int) =~= views);
    paths
}

/// The paths that the listed entries of a table give: those whose value
/// is a string; none where the table is missing.
pub open spec fn paths_of_table(table: Option<Seq<(Seq<char>, Option<Seq<char>>)>>) -> Seq<
    (Seq<char>, Seq<char>),
> {
    match table {
        Some(entries) => string_paths(entries),
        None => Seq::empty(),
    }
}

/// The paths that a project file configures: the entries of its table
/// `paths` whose value is a string. A file without that table configures
/// no path. Fails where the text is not TOML.
pub fn project_paths(text: &str) -> (paths: Result<Vec<(String, String)>, ProjectFileError>)
    ensures
        paths is Ok <==> toml_table_entries(text@, PATHS_TABLE@) is Some,
        paths matches Ok(found) ==> path_views(found@) == paths_of_table(
            toml_table_entries(text@, PATHS_TABLE@)->0,
        ),
{
    match read_table_entries(text, PATHS_TABLE) {
        Ok(Some(entries)) => Ok(keep_string_paths(entries)),
        Ok(None) => {
            let none: Vec<(String, String)> = Vec::new();
            assert(path_views(none@) =~= Seq::<(Seq<char>, Seq<char>)>::empty());
            Ok(none)
        },
        Err(error) => Err(ProjectFileError { message: describe_toml_error(&error) }),
    }
}

/// The index of the first path configured under `key`.
pub open spec fn first_path_under(paths: Seq<(String, String)>, key: Seq<char>) -> Option<int> {
    if exists|i: int| 0 <= i < paths.len() && (#[trigger] paths[i]).0@ == key {
        Some(
            choose|i: int|
                0 <= i < paths.len() && (#[trigger] paths[i]).0@ == key && forall|j: int|
                    0 <= j < i ==> (#[trigger] paths[j]).0@ != key,
        )
    } else {
        None
    }
}

/// The first path configured under `key`.
pub fn configured_path<'a>(paths: &'a Vec<(String, String)>, key: &str) -> (path: Option<&'a str>)
    ensures
        path is Some <==> first_path_under(paths@, key@) is Some,
        path matches Some(found) ==> found@ == paths@[first_path_under(paths@, key@)->0].1@,
{
    let mut i: usize = 0;
    while i < paths.len()
        invariant
            i <= paths.len(),
            forall|j: int| 0 <= j < i ==> (#[trigger] paths@[j]).0@ != key@,
        decreases paths.len() - i,
    {
        if crate::text::str_eq(paths[i].0.as_str(), key) {
            proof {
                let chosen = first_path_under(paths@, key@)->0;
                assert(paths@[i as int].0@ == key@);
                if chosen < i {
                    assert(paths@[chosen].0@ != key@);
                } else if i < chosen {
                    assert(paths@[i as int].0@ != key@);
                }
            }
            return Some(paths[i].1.as_str());
        }
        i += 1;
    }
    None
}

} // verus!
