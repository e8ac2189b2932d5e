//! Apache HTTP Server: the download page and the archive.

use vstd::prelude::*;
use crate::collect::tags::{cycles_of_versions, cycles_or_not_found};
use crate::domain::{cycles_outcome, ProductCycle};
use crate::error::{classified, classify_status, failure_view, Error, Failure, RateLimit};
use crate::ordered::{insert_all_sorted, inserted_all};
use crate::pattern::{captures_all, group, group_at, group_views, match_views, regex_captures_all};
use crate::seqs::filter_mapped;
use crate::text::{decimal_digits, decimal_text, join, views};

verus! {

pub const APACHE_CURRENT_URL: &'static str = "https://downloads.apache.org/httpd/";

pub const APACHE_ARCHIVE_URL: &'static str = "http://archive.apache.org/dist/httpd/";

/// The name of a source archive since 2.0; the first group is the version.
pub const HTTPD_ARCHIVE_PATTERN: &'static str = r"httpd-(\d+\.\d+\.\d+)\.tar\.gz";

/// The name of a source archive of the 1.3 line; the first group is the version.
pub const APACHE_ARCHIVE_PATTERN: &'static str = r"apache_(\d+\.\d+\.\d+)\.tar\.gz";

/// The first groups of the matches, in order, matches without one left out.
pub open spec fn first_groups(matches: Seq<Seq<Option<Seq<char>>>>) -> Seq<Seq<char>> {
    filter_mapped(matches, |m: Seq<Option<Seq<char>>>| group_at(m, 1))
}

/// The versions that a page names under a pattern.
pub open spec fn versions_named(page: Seq<char>, pattern: Seq<char>) -> Seq<Seq<char>> {
    first_groups(regex_captures_all(pattern, page))
}

/// The versions gathered from three lists, sorted, each once.
pub open spec fn gathered_versions(
    current: Seq<Seq<char>>,
    legacy: Seq<Seq<char>>,
    archived: Seq<Seq<char>>,
) -> Seq<Seq<char>> {
    inserted_all(inserted_all(inserted_all(Seq::empty(), current), legacy), archived)
}

/// The versions that the two pages name, sorted as texts, each once.
pub open spec fn apache_versions(current: Seq<char>, archive: Seq<char>) -> Seq<Seq<char>> {
    gathered_versions(
        versions_named(current, HTTPD_ARCHIVE_PATTERN@),
        versions_named(archive, APACHE_ARCHIVE_PATTERN@),
        versions_named(archive, HTTPD_ARCHIVE_PATTERN@),
    )
}

/// The failure that the answer of a page stands for: none for status 200; a refusal for
/// quota or access for 403 and 429, as the headers of the answer classify it; for every
/// other status a failure that names the page.
pub open spec fn page_failure(page: Seq<char>, status: u16, limit: RateLimit) -> Option<Failure> {
    if status == 200 {
        None
    } else if status == 403 || status == 429 {
        classified(status, limit)
    } else {
        Some(Failure::Other(page + " returned status "@ + decimal_digits(status as nat)))
    }
}

/// Collects the versions of the Apache HTTP Server.
#[derive(Debug)]
pub struct ApacheCollector;

impl Default for ApacheCollector {
    fn default() -> Self {
        Self::new()
    }
}

impl ApacheCollector {
    pub fn new() -> Self {
        Self
    }

    pub fn name(&self) -> (name: &'static str)
        ensures
            name@ == "apache"@,
    {
        "apache"
    }

    /// The page to fetch first.
    pub fn current_url(&self) -> (url: &'static str)
        ensures
            url@ == APACHE_CURRENT_URL@,
    {
        APACHE_CURRENT_URL
    }

    /// The page to fetch second.
    pub fn archive_url(&self) -> (url: &'static str)
        ensures
            url@ == APACHE_ARCHIVE_URL@,
    {
        APACHE_ARCHIVE_URL
    }

    /// Judges the answer of a page: anything but status 200 is a failure, a refusal for
    /// quota or access for 403 and 429, and one that names the page for the rest.
    pub fn check_status(page: &str, status: u16, limit: &RateLimit) -> (failure: Option<Error>)
        ensures
            failure_view(failure) == page_failure(page@, status, *limit),
            failure matches Some(e) ==> (e@.escalates() <==> status == 403 || status == 429),
    {
        if status == 200 {
            None
        } else if status == 403 || status == 429 {
            classify_status(status, limit)
        } else {
            let mut text = join(page, " returned status ");
            let code = decimal_text(status as u64);
            text.append(code.as_str());
            Some(Error::Other(text))
        }
    }

    /// Picks the first group out of each match.
    pub fn versions_of_matches(matches: &Vec<Vec<Option<String>>>) -> (versions: Vec<String>)
        ensures
            views(versions@) == first_groups(match_views(matches@)),
    {
        let ghost all = match_views(matches@);
        let ghost f = |m: Seq<Option<Seq<char>>>| group_at(m, 1);
        let mut versions: Vec<String> = Vec::new();
        let mut i: usize = 0;
        assert(all.take(0) =~= Seq::<Seq<Option<Seq<char>>>>::empty());
        assert(views(versions@) =~= Seq::<Seq<char>>::empty());
        while i < matches.len()
            invariant
                i <= matches.len(),
                all == match_views(matches@),
                f == |m: Seq<Option<Seq<char>>>| group_at(m, 1),
                views(versions@) == filter_mapped(all.take(i as int), f),
            decreases matches.len() - i,
        {
            assert(all.take(i + 1).drop_last() =~= all.take(i as int));
            assert(all.take(i + 1).last() == group_views(matches@[i as int]@));
            match group(&matches[i], 1) {
                Some(version) => {
                    let ghost before = views(versions@);
                    versions.push(version);
                    assert(views(versions@) =~= before.push(version@));
                },
                None => {},
            }
            i += 1;
        }
        assert(all.take(matches.len() as int) =~= all);
        versions
    }

    /// Gathers the versions of three lists into one that is sorted and names each once.
    pub fn gather(current: &Vec<String>, legacy: &Vec<String>, archived: &Vec<String>) -> (versions:
        Vec<String>)
        ensures
            views(versions@) == gathered_versions(views(current@), views(legacy@), views(archived@)),
    {
        let mut versions: Vec<String> = Vec::new();
        assert(views(versions@) =~= Seq::<Seq<char>>::empty());
        insert_all_sorted(&mut versions, current);
        insert_all_sorted(&mut versions, legacy);
        insert_all_sorted(&mut versions, archived);
        versions
    }

    /// Reads the versions off the download page and the archive page.
    pub fn versions(current: &str, archive: &str) -> (versions: Vec<String>)
        ensures
            views(versions@) == apache_versions(current@, archive@),
    {
        let now = Self::versions_of_matches(&captures_all(HTTPD_ARCHIVE_PATTERN, current));
        let legacy = Self::versions_of_matches(&captures_all(APACHE_ARCHIVE_PATTERN, archive));
        let archived = Self::versions_of_matches(&captures_all(HTTPD_ARCHIVE_PATTERN, archive));
        Self::gather(&now, &legacy, &archived)
    }

    /// Reads the cycles off the download page and the archive page; no version on either
    /// is `NotFound`.
    pub fn cycles(current: &str, archive: &str) -> (out: Result<Vec<ProductCycle>, Error>)
        ensures
            cycles_outcome(out) == cycles_or_not_found(apache_versions(current@, archive@)),
    {
        cycles_of_versions(Self::versions(current, archive))
    }
}

} // verus!
