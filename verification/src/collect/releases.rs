//! Releases and tags as GitHub lists them, and what several collectors do with them.

use vstd::prelude::*;
use crate::config::{no_cleaning, VersionCleaning};
use crate::domain::{opt_view, SoftwareVersion, VersionRow};
use crate::error::{Error, Failure};
use crate::normalize::{
    candidate_rows, fragment_rows, latest, no_leading_v, normalize_all, normalized_all, pick_latest,
    CandidateRecord, CandidateRow,
};
use crate::record::{all_canonical, lemma_latest_canonical, well_formed};
use crate::semver::is_semver;
use crate::seqs::filter_mapped;
use crate::text::views;

verus! {

/// One release of a repository.
#[derive(Debug, PartialEq, Eq)]
pub struct GitHubRelease {
    pub name: String,
    pub tag_name: String,
    pub prerelease: bool,
    pub draft: bool,
    pub html_url: String,
    pub published_at: Option<String>,
}

/// A [`GitHubRelease`] as plain values.
pub struct ReleaseRow {
    pub name: Seq<char>,
    pub tag_name: Seq<char>,
    pub prerelease: bool,
    pub draft: bool,
    pub html_url: Seq<char>,
    pub published_at: Option<Seq<char>>,
}

impl View for GitHubRelease {
    type V = ReleaseRow;

    open spec fn view(&self) -> ReleaseRow {
        ReleaseRow {
            name: self.name@,
            tag_name: self.tag_name@,
            prerelease: self.prerelease,
            draft: self.draft,
            html_url: self.html_url@,
            published_at: opt_view(self.published_at),
        }
    }
}

/// One tag of a repository, with the address of the commit that it marks.
#[derive(Debug, PartialEq, Eq)]
pub struct GitHubTag {
    pub name: String,
    pub commit_url: Option<String>,
}

/// A [`GitHubTag`] as plain values.
pub struct TagRow {
    pub name: Seq<char>,
    pub commit_url: Option<Seq<char>>,
}

impl View for GitHubTag {
    type V = TagRow;

    open spec fn view(&self) -> TagRow {
        TagRow { name: self.name@, commit_url: opt_view(self.commit_url) }
    }
}

/// The views of releases.
pub open spec fn release_rows(releases: Seq<GitHubRelease>) -> Seq<ReleaseRow> {
    releases.map_values(|r: GitHubRelease| r@)
}

/// The views of tags.
pub open spec fn tag_rows(tags: Seq<GitHubTag>) -> Seq<TagRow> {
    tags.map_values(|t: GitHubTag| t@)
}

/// The names of tags.
pub open spec fn tag_names(tags: Seq<TagRow>) -> Seq<Seq<char>> {
    tags.map_values(|t: TagRow| t.name)
}

/// Whether a release is neither a pre-release nor a draft.
pub open spec fn is_stable(release: ReleaseRow) -> bool {
    !release.prerelease && !release.draft
}

/// What a collector of one record gave, as plain values.
pub open spec fn record_outcome(out: Result<SoftwareVersion, Error>) -> Result<VersionRow, Failure> {
    match out {
        Ok(r) => Ok(r@),
        Err(e) => Err(e@),
    }
}

/// The candidate that a release of a product stands for, where the release is neither a
/// pre-release nor a draft: its tag is the raw version, its page the source.
pub open spec fn stable_candidate(product: Seq<char>, release: ReleaseRow) -> Option<CandidateRow> {
    if is_stable(release) {
        Some(
            CandidateRow {
                name: product,
                raw_version: release.tag_name,
                release_date: None,
                end_of_life_date: None,
                is_long_term_support: false,
                source_url: Some(release.html_url),
            },
        )
    } else {
        None
    }
}

/// The candidates of the stable releases of a product, in order.
pub open spec fn stable_candidates(product: Seq<char>, releases: Seq<ReleaseRow>) -> Seq<
    CandidateRow,
> {
    filter_mapped(releases, |r: ReleaseRow| stable_candidate(product, r))
}

/// The record of the highest stable release of a product: the highest semantic version
/// among the normalized tags of its stable releases, of several equally high the first;
/// `NotFound` where no stable release carries a version.
pub open spec fn latest_stable(product: Seq<char>, releases: Seq<ReleaseRow>) -> Result<
    VersionRow,
    Failure,
> {
    match latest(normalized_all(stable_candidates(product, releases), no_cleaning())) {
        Some(best) => Ok(latest_only(product, best.version, best.source_url)),
        None => Err(Failure::NotFound),
    }
}

/// The record of a product of which only the latest version and its release notes are
/// known.
pub open spec fn latest_only(name: Seq<char>, version: Seq<char>, notes: Option<Seq<char>>)
    -> VersionRow {
    VersionRow {
        name,
        current_version: Seq::empty(),
        latest_version: version,
        latest_lts_version: None,
        is_lts: false,
        eol_date: None,
        release_notes_url: notes,
        cve_count: 0,
    }
}

/// The tags of the releases that are no pre-releases, in order.
pub open spec fn released_tags(releases: Seq<ReleaseRow>) -> Seq<Seq<char>> {
    filter_mapped(
        releases,
        |r: ReleaseRow|
            if r.prerelease {
                None
            } else {
                Some(r.tag_name)
            },
    )
}

/// Builds the record of a product of which only the latest version is known.
pub fn latest_only_record(name: &str, version: String, notes: Option<String>) -> (record:
    SoftwareVersion)
    ensures
        record@ == latest_only(name@, version@, opt_view(notes)),
{
    SoftwareVersion {
        name: String::from_str(name),
        current_version: String::new(),
        latest_version: version,
        latest_lts_version: None,
        is_lts: false,
        eol_date: None,
        release_notes_url: notes,
        cve_count: 0,
    }
}

/// Wraps the stable releases of a product as candidates.
pub fn stable_candidates_of(product: &str, releases: &Vec<GitHubRelease>) -> (out: Vec<
    CandidateRecord,
>)
    ensures
        candidate_rows(out@) == stable_candidates(product@, release_rows(releases@)),
{
    let ghost all = release_rows(releases@);
    let ghost f = |r: ReleaseRow| stable_candidate(product@, r);
    let mut out: Vec<CandidateRecord> = Vec::new();
    let mut i: usize = 0;
    assert(all.take(0) =~= Seq::<ReleaseRow>::empty());
    assert(candidate_rows(out@) =~= Seq::<CandidateRow>::empty());
    while i < releases.len()
        invariant
            i <= releases.len(),
            all == release_rows(releases@),
            f == |r: ReleaseRow| stable_candidate(product@, r),
            candidate_rows(out@) == filter_mapped(all.take(i as int), f),
        decreases releases.len() - i,
    {
        assert(all.take(i + 1).drop_last() =~= all.take(i as int));
        assert(all.take(i + 1).last() == releases@[i as int]@);
        let release = &releases[i];
        if !release.prerelease && !release.draft {
            let ghost before = candidate_rows(out@);
            let candidate = CandidateRecord {
                name: String::from_str(product),
                raw_version: release.tag_name.clone(),
                release_date: None,
                end_of_life_date: None,
                is_long_term_support: false,
                source_url: Some(release.html_url.clone()),
            };
            out.push(candidate);
            assert(candidate_rows(out@) =~= before.push(candidate@));
        }
        i += 1;
    }
    assert(all.take(releases.len() as int) =~= all);
    out
}

/// Makes the record of the highest stable release of a product: the releases that are
/// neither pre-release nor draft are normalized, and the highest version among them is
/// taken, with the address of its release notes. No stable release that is a version is
/// `NotFound`.
pub fn latest_stable_record(product: &str, releases: &Vec<GitHubRelease>) -> (out: Result<
    SoftwareVersion,
    Error,
>)
    ensures
        record_outcome(out) == latest_stable(product@, release_rows(releases@)),
        out matches Ok(record) ==> well_formed(record@) && record@.name == product@,
{
    let wrapped = stable_candidates_of(product, releases);
    let rules = VersionCleaning::default();
    let fragments = normalize_all(&wrapped, &rules);
    proof {
        assert(all_canonical(fragment_rows(fragments@))) by {
            assert forall|i: int| 0 <= i < fragment_rows(fragments@).len() implies is_semver(
                (#[trigger] fragment_rows(fragments@)[i]).version,
            ) && no_leading_v(fragment_rows(fragments@)[i].version) by {
                assert(fragment_rows(fragments@)[i] == fragments@[i]@);
            }
        }
        lemma_latest_canonical(fragment_rows(fragments@));
    }
    match pick_latest(&fragments) {
        Some(best) => Ok(latest_only_record(product, best.version, best.source_url)),
        None => Err(Error::NotFound),
    }
}

/// The tags of the releases that are no pre-releases.
pub fn tags_of_releases(releases: &Vec<GitHubRelease>) -> (tags: Vec<String>)
    ensures
        views(tags@) == released_tags(release_rows(releases@)),
{
    let ghost all = release_rows(releases@);
    let ghost f = |r: ReleaseRow|
        if r.prerelease {
            None
        } else {
            Some(r.tag_name)
        };
    let mut tags: Vec<String> = Vec::new();
    let mut i: usize = 0;
    assert(all.take(0) =~= Seq::<ReleaseRow>::empty());
    assert(views(tags@) =~= Seq::<Seq<char>>::empty());
    while i < releases.len()
        invariant
            i <= releases.len(),
            all == release_rows(releases@),
            f == |r: ReleaseRow|
                if r.prerelease {
                    None
                } else {
                    Some(r.tag_name)
                },
            views(tags@) == filter_mapped(all.take(i as int), f),
        decreases releases.len() - i,
    {
        assert(all.take(i + 1).drop_last() =~= all.take(i as int));
        assert(all.take(i + 1).last() == releases@[i as int]@);
        if !releases[i].prerelease {
            let ghost before = views(tags@);
            tags.push(releases[i].tag_name.clone());
            assert(views(tags@) =~= before.push(releases@[i as int].tag_name@));
        }
        i += 1;
    }
    assert(all.take(releases.len() as int) =~= all);
    tags
}

/// The names of the tags.
pub fn names_of_tags(tags: &Vec<GitHubTag>) -> (names: Vec<String>)
    ensures
        views(names@) == tag_names(tag_rows(tags@)),
{
    let mut names: Vec<String> = Vec::new();
    let mut i: usize = 0;
    while i < tags.len()
        invariant
            i <= tags.len(),
            names@.len() == i,
            forall|j: int| 0 <= j < i ==> (#[trigger] names@[j])@ == tags@[j].name@,
        decreases tags.len() - i,
    {
        names.push(tags[i].name.clone());
        i += 1;
    }
    assert(views(names@) =~= tag_names(tag_rows(tags@)));
    names
}

} // verus!
