//! Python: the tags of the interpreter on GitHub.

use vstd::prelude::*;
use crate::collect::releases::{
    latest_only, latest_only_record, record_outcome, tag_names, tag_rows, GitHubTag,
};
use crate::config::{no_cleaning, VersionCleaning};
use crate::domain::{bare_cycles, bare_rows, opt_view, SoftwareVersion, VersionRow};
use crate::error::{Error, Failure};
use crate::normalize::{
    fragment_rows, latest, no_leading_v, normalize_all, normalized_all, pick_latest,
};
use crate::record::{all_canonical, candidates, candidates_of, lemma_latest_canonical, well_formed};
use crate::semver::is_semver;

verus! {

pub const PYTHON_TAGS_URL: &'static str = "https://api.github.com/repos/python/cpython/tags";

/// The record of Python: the highest release among the tags that, without leading `v`s,
/// are semantic versions; `NotFound` where no tag is a release.
pub open spec fn python_record(tags: Seq<Seq<char>>) -> Result<VersionRow, Failure> {
    match latest(normalized_all(candidates_of("python"@, bare_rows(tags)), no_cleaning())) {
        Some(best) => Ok(latest_only("python"@, best.version, None)),
        None => Err(Failure::NotFound),
    }
}

/// Collects the latest release of Python.
#[derive(Debug)]
pub struct PythonCollector {
    github_token: Option<String>,
}

impl PythonCollector {
    /// The token that requests are to carry, if any.
    pub closed spec fn token(&self) -> Option<Seq<char>> {
        opt_view(self.github_token)
    }

    pub fn new(github_token: Option<String>) -> (collector: Self)
        ensures
            collector.token() == opt_view(github_token),
    {
        Self { github_token }
    }

    pub fn name(&self) -> (name: &'static str)
        ensures
            name@ == "python"@,
    {
        "python"
    }

    /// The listing to fetch.
    pub fn url(&self) -> (url: &'static str)
        ensures
            url@ == PYTHON_TAGS_URL@,
    {
        PYTHON_TAGS_URL
    }

    /// The token that requests are to carry, if any.
    pub fn github_token(&self) -> (token: Option<&String>)
        ensures
            token is Some == self.token() is Some,
            token matches Some(t) ==> Some(t@) == self.token(),
    {
        self.github_token.as_ref()
    }

    /// Reads the record off the tags.
    pub fn record(tags: &Vec<GitHubTag>) -> (out: Result<SoftwareVersion, Error>)
        ensures
            record_outcome(out) == python_record(tag_names(tag_rows(tags@))),
            out matches Ok(record) ==> well_formed(record@),
    {
        let names = crate::collect::releases::names_of_tags(tags);
        let cycles = bare_cycles(names);
        let wrapped = candidates("python", &cycles);
        let rules = VersionCleaning::default();
        let fragments = normalize_all(&wrapped, &rules);
        proof {
            assert(all_canonical(fragment_rows(fragments@))) by {
                assert forall|i: int| 0 <= i < fragment_rows(fragments@).len() implies is_semver(
                    (#[trigger] fragment_rows(fragments@)[i]).version,
                ) && no_leading_v(fragment_rows(fragments@)[i].version) by {
                    assert(fragment_rows(fragments@)[i] == fragments@[i]@);
                }
            }
            lemma_latest_canonical(fragment_rows(fragments@));
        }
        match pick_latest(&fragments) {
            Some(best) => Ok(latest_only_record("python", best.version, None)),
            None => Err(Error::NotFound),
        }
    }
}

} // verus!
