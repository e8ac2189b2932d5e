//! Ruby: the releases of the interpreter on GitHub.

use vstd::prelude::*;
use crate::collect::releases::{
    release_rows, released_tags, tags_of_releases, GitHubRelease, ReleaseRow,
};
use crate::collect::tags::{
    cycles_of_versions, cycles_or_not_found, names_canonical, stable_versions, stable_versions_of,
};
use crate::config::{no_cleaning, VersionCleaning};
use crate::domain::{cycles_outcome, opt_view, rows, CycleRow, ProductCycle};
use crate::error::{Error, Failure};

verus! {

pub const RUBY_RELEASES_URL: &'static str = "https://api.github.com/repos/ruby/ruby/releases";

/// The cycles that the releases give: one for each stable version among the tags of the
/// releases that are not marked as pre-releases, each once. The stable version of a tag is
/// the tag without leading `v`s, where that is a semantic version without a pre-release
/// part; a tag that is none adds no cycle. No version at all is `NotFound`.
pub open spec fn ruby_cycles(releases: Seq<ReleaseRow>) -> Result<Seq<CycleRow>, Failure> {
    cycles_or_not_found(stable_versions(released_tags(releases), no_cleaning()))
}

/// Collects the versions of Ruby.
#[derive(Debug)]
pub struct RubyCollector {
    name: String,
    github_token: Option<String>,
}

impl RubyCollector {
    /// The name of the product that this collector reports under.
    pub closed spec fn label(&self) -> Seq<char> {
        self.name@
    }

    /// The token that requests are to carry, if any.
    pub closed spec fn token(&self) -> Option<Seq<char>> {
        opt_view(self.github_token)
    }

    pub fn new(name: &str, github_token: Option<String>) -> (collector: Self)
        ensures
            collector.label() == name@,
            collector.token() == opt_view(github_token),
    {
        Self { name: String::from_str(name), github_token }
    }

    pub fn name(&self) -> (name: &str)
        ensures
            name@ == self.label(),
    {
        self.name.as_str()
    }

    /// The token that requests are to carry, if any.
    pub fn github_token(&self) -> (token: Option<&String>)
        ensures
            token is Some == self.token() is Some,
            token matches Some(t) ==> Some(t@) == self.token(),
    {
        self.github_token.as_ref()
    }

    /// The listing to fetch.
    pub fn url(&self) -> (url: &'static str)
        ensures
            url@ == RUBY_RELEASES_URL@,
    {
        RUBY_RELEASES_URL
    }

    /// Reads the cycles off the releases. Every name is a semantic version without a leading
    /// `v`, and none occurs twice.
    pub fn cycles(releases: &Vec<GitHubRelease>) -> (out: Result<Vec<ProductCycle>, Error>)
        ensures
            cycles_outcome(out) == ruby_cycles(release_rows(releases@)),
            out matches Ok(cycles) ==> names_canonical(rows(cycles@)),
    {
        let tags = tags_of_releases(releases);
        let rules = VersionCleaning::default();
        cycles_of_versions(stable_versions_of(&tags, &rules))
    }
}

} // verus!
