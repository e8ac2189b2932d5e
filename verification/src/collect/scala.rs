//! Scala: the releases of the compiler on GitHub.

use vstd::prelude::*;
use crate::collect::releases::{
    latest_stable, latest_stable_record, record_outcome, release_rows, GitHubRelease, ReleaseRow,
};
use crate::domain::{opt_view, SoftwareVersion, VersionRow};
use crate::error::{Error, Failure};
use crate::record::well_formed;

verus! {

pub const SCALA_RELEASES_URL: &'static str = "https://api.github.com/repos/scala/scala/releases";

/// The record of Scala: the highest semantic version among the tags of the releases that
/// are neither pre-release nor draft, without leading `v`s, with the address of its release
/// notes; `NotFound` where there is no such release.
pub open spec fn scala_record(releases: Seq<ReleaseRow>) -> Result<VersionRow, Failure> {
    latest_stable("scala"@, releases)
}

/// Collects the latest release of Scala.
#[derive(Debug)]
pub struct ScalaCollector {
    github_token: Option<String>,
}

impl ScalaCollector {
    /// The token that requests are to carry, if any.
    pub closed spec fn token(&self) -> Option<Seq<char>> {
        opt_view(self.github_token)
    }

    pub fn new(github_token: Option<String>) -> (collector: Self)
        ensures
            collector.token() == opt_view(github_token),
    {
        Self { github_token }
    }

    pub fn name(&self) -> (name: &'static str)
        ensures
            name@ == "scala"@,
    {
        "scala"
    }

    /// The listing to fetch.
    pub fn url(&self) -> (url: &'static str)
        ensures
            url@ == SCALA_RELEASES_URL@,
    {
        SCALA_RELEASES_URL
    }

    /// The token that requests are to carry, if any.
    pub fn github_token(&self) -> (token: Option<&String>)
        ensures
            token is Some == self.token() is Some,
            token matches Some(t) ==> Some(t@) == self.token(),
    {
        self.github_token.as_ref()
    }

    /// Reads the record off the releases.
    pub fn record(releases: &Vec<GitHubRelease>) -> (out: Result<SoftwareVersion, Error>)
        ensures
            record_outcome(out) == scala_record(release_rows(releases@)),
            out matches Ok(record) ==> well_formed(record@),
    {
        latest_stable_record("scala", releases)
    }
}

} // verus!
