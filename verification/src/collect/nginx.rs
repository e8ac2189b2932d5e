//! Nginx: the tags of the server on GitHub.

use vstd::prelude::*;
use crate::collect::releases::{names_of_tags, tag_names, tag_rows, GitHubTag, TagRow};
use crate::collect::tags::{
    cycles_of_versions, cycles_or_not_found, names_canonical, stable_versions, stable_versions_of,
};
use crate::config::{CleaningRules, VersionCleaning};
use crate::domain::{cycles_outcome, opt_view, rows, CycleRow, ProductCycle};
use crate::error::{Error, Failure};

verus! {

pub const NGINX_TAGS_URL: &'static str = "https://api.github.com/repos/nginx/nginx/tags";

/// The rules under which the tags of Nginx are read: the prefix `release-` is taken off.
pub open spec fn nginx_rules() -> CleaningRules {
    CleaningRules {
        enabled: true,
        regex: None,
        trim_prefix: Some("release-"@),
        trim_suffix: None,
    }
}

/// The cycles that the tags give: one for each stable version among them, each once. The
/// stable version of a tag is the tag without the prefix `release-` and without leading
/// `v`s, where that is a semantic version without a pre-release part; a tag that is none
/// adds no cycle. No version at all is `NotFound`.
pub open spec fn nginx_cycles(tags: Seq<TagRow>) -> Result<Seq<CycleRow>, Failure> {
    cycles_or_not_found(stable_versions(tag_names(tags), nginx_rules()))
}

/// Collects the versions of Nginx.
#[derive(Debug)]
pub struct NginxCollector {
    name: String,
    github_token: Option<String>,
}

impl NginxCollector {
    /// The name of the product that this collector reports under.
    pub closed spec fn label(&self) -> Seq<char> {
        self.name@
    }

    /// The token that requests are to carry, if any.
    pub closed spec fn token(&self) -> Option<Seq<char>> {
        opt_view(self.github_token)
    }

    pub fn new(name: &str, github_token: Option<String>) -> (collector: Self)
        ensures
            collector.label() == name@,
            collector.token() == opt_view(github_token),
    {
        Self { name: String::from_str(name), github_token }
    }

    pub fn name(&self) -> (name: &str)
        ensures
            name@ == self.label(),
    {
        self.name.as_str()
    }

    /// The token that requests are to carry, if any.
    pub fn github_token(&self) -> (token: Option<&String>)
        ensures
            token is Some == self.token() is Some,
            token matches Some(t) ==> Some(t@) == self.token(),
    {
        self.github_token.as_ref()
    }

    /// The listing to fetch.
    pub fn url(&self) -> (url: &'static str)
        ensures
            url@ == NGINX_TAGS_URL@,
    {
        NGINX_TAGS_URL
    }

    /// The rules under which the tags are read.
    pub fn cleaning() -> (rules: VersionCleaning)
        ensures
            rules@ == nginx_rules(),
    {
        VersionCleaning {
            enabled: true,
            regex: None,
            trim_prefix: Some(String::from_str("release-")),
            trim_suffix: None,
        }
    }

    /// Reads the cycles off the tags. Every name is a semantic version without a leading
    /// `v`, and none occurs twice.
    pub fn cycles(tags: &Vec<GitHubTag>) -> (out: Result<Vec<ProductCycle>, Error>)
        ensures
            cycles_outcome(out) == nginx_cycles(tag_rows(tags@)),
            out matches Ok(cycles) ==> names_canonical(rows(cycles@)),
    {
        let names = names_of_tags(tags);
        let rules = Self::cleaning();
        cycles_of_versions(stable_versions_of(&names, &rules))
    }
}

} // verus!
