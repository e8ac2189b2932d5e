//! Any product that publishes on GitHub: its releases or its tags, page by page.

use vstd::prelude::*;
use crate::collect::releases::{
    release_rows, tag_rows, GitHubRelease, GitHubTag, ReleaseRow, TagRow,
};
use crate::collect::tags::{names_canonical, stable_version, stable_version_of};
use crate::config::{no_cleaning, CleaningRules, VersionCleaning};
use crate::date::{parse_rfc3339_date, rfc3339_date};
use crate::domain::{clone_opt, cycles_outcome, opt_view, rows, CycleRow, ProductCycle};
use crate::error::{Error, Failure};
use crate::normalize::no_leading_v;
use crate::semver::is_semver;
use crate::seqs::{filter_mapped, first_per_key, has_key, lemma_first_per_key};
use crate::text::{decimal_digits, decimal_text, text_eq};

verus! {

/// The listing of a repository that a collector reads.
#[derive(Debug, Clone, Copy, PartialEq, Eq, Structural)]
pub enum GitHubSource {
    Releases,
    Tags,
}

/// The day on which a release was published, where it says so in a form that reads.
pub open spec fn published_on(release: ReleaseRow) -> Option<i32> {
    match release.published_at {
        Some(stamp) => rfc3339_date(stamp),
        None => None,
    }
}

/// The cycle of a version released on a day.
pub open spec fn dated_row(version: Seq<char>, day: Option<i32>) -> CycleRow {
    CycleRow { name: version, release_date: day, eol_date: None, lts: false }
}

/// The cycle of a release under the cleaning rules of its target: none where the release
/// is marked as a pre-release, or where its tag has no stable version.
pub open spec fn release_cycle(release: ReleaseRow, rules: CleaningRules) -> Option<CycleRow> {
    if release.prerelease {
        None
    } else {
        match stable_version(release.tag_name, rules) {
            Some(version) => Some(dated_row(version, published_on(release))),
            None => None,
        }
    }
}

/// A table, or `NotFound` where it has no rows.
pub open spec fn table_or_not_found(table: Seq<CycleRow>) -> Result<Seq<CycleRow>, Failure> {
    if table.len() == 0 {
        Err(Failure::NotFound)
    } else {
        Ok(table)
    }
}

/// The cycles of the releases: one for each stable version, at the first release that
/// carries it; `NotFound` where there is none.
pub open spec fn release_cycles(releases: Seq<ReleaseRow>, rules: CleaningRules) -> Result<
    Seq<CycleRow>,
    Failure,
> {
    table_or_not_found(
        first_per_key(
            filter_mapped(releases, |r: ReleaseRow| release_cycle(r, rules)),
            |c: CycleRow| c.name,
        ),
    )
}

/// Whether no two cycles carry the same name.
pub open spec fn names_once(table: Seq<CycleRow>) -> bool {
    forall|i: int, j: int|
        0 <= i < j < table.len() ==> (#[trigger] table[i]).name != (#[trigger] table[j]).name
}

/// Whether no two requests carry the same version.
pub open spec fn versions_once(requests: Seq<RequestRow>) -> bool {
    forall|i: int, j: int|
        0 <= i < j < requests.len() ==> (#[trigger] requests[i]).version != (
        #[trigger] requests[j]).version
}

/// A tag that holds a version, with the address of the commit that dates it.
#[derive(Debug, PartialEq, Eq)]
pub struct TagRequest {
    pub version: String,
    pub commit_url: Option<String>,
}

/// A [`TagRequest`] as plain values.
pub struct RequestRow {
    pub version: Seq<char>,
    pub commit_url: Option<Seq<char>>,
}

impl View for TagRequest {
    type V = RequestRow;

    open spec fn view(&self) -> RequestRow {
        RequestRow { version: self.version@, commit_url: opt_view(self.commit_url) }
    }
}

/// The views of requests.
pub open spec fn request_rows(requests: Seq<TagRequest>) -> Seq<RequestRow> {
    requests.map_values(|r: TagRequest| r@)
}

/// The request of a tag under the cleaning rules of its target, where the tag has a stable
/// version: a tag with a pre-release part, or one that is no version, gives none.
pub open spec fn tag_request(tag: TagRow, rules: CleaningRules) -> Option<RequestRow> {
    match stable_version(tag.name, rules) {
        Some(version) => Some(RequestRow { version, commit_url: tag.commit_url }),
        None => None,
    }
}

/// The requests of the tags: one for each stable version, at the first tag that carries it.
pub open spec fn tag_requests(tags: Seq<TagRow>, rules: CleaningRules) -> Seq<RequestRow> {
    first_per_key(filter_mapped(tags, |t: TagRow| tag_request(t, rules)), |r: RequestRow| r.version)
}

/// The day of the request at a place: the one fetched for it, if one was.
pub open spec fn day_at(days: Seq<Option<i32>>, place: int) -> Option<i32> {
    if 0 <= place < days.len() {
        days[place]
    } else {
        None
    }
}

/// The cycles of the requests with the days fetched for them, place by place.
pub open spec fn dated_rows(requests: Seq<RequestRow>, days: Seq<Option<i32>>) -> Seq<CycleRow> {
    Seq::new(requests.len(), |i: int| dated_row(requests[i].version, day_at(days, i)))
}

/// The address of one listing of a repository.
pub open spec fn listing_url(repository: Seq<char>, source: GitHubSource) -> Seq<char> {
    "https://api.github.com/repos/"@ + repository + match source {
        GitHubSource::Releases => "/releases"@,
        GitHubSource::Tags => "/tags"@,
    }
}

/// The address of one page of a listing.
pub open spec fn page_url(url: Seq<char>, page: nat) -> Seq<char> {
    url + "?page="@ + decimal_digits(page) + "&per_page=100"@
}

/// Collects the versions of a product from a repository on GitHub.
#[derive(Debug)]
pub struct GitHubCollector {
    name: String,
    repository: String,
    source: GitHubSource,
    cleaning: VersionCleaning,
}

impl GitHubCollector {
    /// The name of the product that this collector reports under.
    pub closed spec fn label(&self) -> Seq<char> {
        self.name@
    }

    /// The repository, as owner and name.
    pub closed spec fn repository(&self) -> Seq<char> {
        self.repository@
    }

    /// The listing that this collector reads.
    pub closed spec fn source(&self) -> GitHubSource {
        self.source
    }

    /// The rules under which this collector reads tags.
    pub closed spec fn rules(&self) -> CleaningRules {
        self.cleaning@
    }

    /// A collector that reads tags under no cleaning rules.
    pub fn new(name: &str, repository: &str, source: GitHubSource) -> (collector: Self)
        ensures
            collector.label() == name@,
            collector.repository() == repository@,
            collector.source() == source,
            collector.rules() == no_cleaning(),
    {
        Self {
            name: String::from_str(name),
            repository: String::from_str(repository),
            source,
            cleaning: VersionCleaning::default(),
        }
    }

    /// This collector with the cleaning rules of its target.
    pub fn with_cleaning(self, cleaning: VersionCleaning) -> (collector: Self)
        ensures
            collector.label() == self.label(),
            collector.repository() == self.repository(),
            collector.source() == self.source(),
            collector.rules() == cleaning@,
    {
        Self { name: self.name, repository: self.repository, source: self.source, cleaning }
    }

    /// The rules under which this collector reads tags.
    pub fn cleaning(&self) -> (rules: &VersionCleaning)
        ensures
            rules@ == self.rules(),
    {
        &self.cleaning
    }

    pub fn name(&self) -> (name: &str)
        ensures
            name@ == self.label(),
    {
        self.name.as_str()
    }

    /// The listing that this collector reads.
    pub fn listing(&self) -> (source: GitHubSource)
        ensures
            source == self.source(),
    {
        self.source
    }

    /// The address of the listing that this collector reads.
    pub fn url(&self) -> (url: String)
        ensures
            url@ == listing_url(self.repository(), self.source()),
    {
        let mut url = String::from_str("https://api.github.com/repos/");
        url.append(self.repository.as_str());
        match self.source {
            GitHubSource::Releases => url.append("/releases"),
            GitHubSource::Tags => url.append("/tags"),
        }
        url
    }

    /// The address of one page of a listing, pages counted from 1.
    pub fn page(url: &str, page: usize) -> (out: String)
        ensures
            out@ == page_url(url@, page as nat),
    {
        let mut out = String::from_str(url);
        out.append("?page=");
        let number = decimal_text(page as u64);
        out.append(number.as_str());
        out.append("&per_page=100");
        out
    }

    /// Makes the cycle of a version released on a day.
    pub fn dated_cycle(version: String, day: Option<i32>) -> (cycle: ProductCycle)
        ensures
            cycle@ == dated_row(version@, day),
    {
        ProductCycle { name: version, release_date: day, eol_date: None, lts: false }
    }

    /// Whether a cycle of this name is in the table.
    pub fn has_name(cycles: &Vec<ProductCycle>, name: &str) -> (found: bool)
        ensures
            found == has_key(rows(cycles@), |c: CycleRow| c.name, name@),
    {
        let ghost key = |c: CycleRow| c.name;
        let mut i: usize = 0;
        while i < cycles.len()
            invariant
                i <= cycles.len(),
                key == |c: CycleRow| c.name,
                forall|j: int| 0 <= j < i ==> key(#[trigger] rows(cycles@)[j]) != name@,
            decreases cycles.len() - i,
        {
            if text_eq(cycles[i].name.as_str(), name) {
                assert(key(rows(cycles@)[i as int]) == name@);
                return true;
            }
            i += 1;
        }
        false
    }

    /// Whether a request for this version is in the list.
    pub fn has_request(requests: &Vec<TagRequest>, version: &str) -> (found: bool)
        ensures
            found == has_key(request_rows(requests@), |r: RequestRow| r.version, version@),
    {
        let ghost key = |r: RequestRow| r.version;
        let mut i: usize = 0;
        while i < requests.len()
            invariant
                i <= requests.len(),
                key == |r: RequestRow| r.version,
                forall|j: int| 0 <= j < i ==> key(#[trigger] request_rows(requests@)[j]) != version@,
            decreases requests.len() - i,
        {
            if text_eq(requests[i].version.as_str(), version) {
                assert(key(request_rows(requests@)[i as int]) == version@);
                return true;
            }
            i += 1;
        }
        false
    }

    /// Reads the cycles off the releases: one for each stable version, at the first release
    /// that carries it. A release that is marked as a pre-release, or whose tag has no
    /// stable version under the rules of the target, adds no cycle. Every name is a semantic
    /// version without a leading `v`, and none occurs twice.
    pub fn cycles_from_releases(&self, releases: &Vec<GitHubRelease>) -> (out: Result<
        Vec<ProductCycle>,
        Error,
    >)
        ensures
            cycles_outcome(out) == release_cycles(release_rows(releases@), self.rules()),
            out matches Ok(cycles) ==> names_canonical(rows(cycles@)) && names_once(rows(cycles@)),
    {
        let ghost all = release_rows(releases@);
        let ghost f = |r: ReleaseRow| release_cycle(r, self.rules());
        let ghost key = |c: CycleRow| c.name;
        let mut cycles: Vec<ProductCycle> = Vec::new();
        let mut i: usize = 0;
        assert(all.take(0) =~= Seq::<ReleaseRow>::empty());
        assert(rows(cycles@) =~= Seq::<CycleRow>::empty());
        while i < releases.len()
            invariant
                i <= releases.len(),
                all == release_rows(releases@),
                f == |r: ReleaseRow| release_cycle(r, self.rules()),
                key == |c: CycleRow| c.name,
                rows(cycles@) == first_per_key(filter_mapped(all.take(i as int), f), key),
                names_canonical(rows(cycles@)),
            decreases releases.len() - i,
        {
            assert(all.take(i + 1).drop_last() =~= all.take(i as int));
            assert(all.take(i + 1).last() == releases@[i as int]@);
            let ghost seen = filter_mapped(all.take(i as int), f);
            let release = &releases[i];
            if !release.prerelease {
                match stable_version_of(release.tag_name.as_str(), &self.cleaning) {
                    Some(version) => {
                        let day = match &release.published_at {
                            Some(stamp) => parse_rfc3339_date(stamp.as_str()),
                            None => None,
                        };
                        assert(seen.push(dated_row(version@, day)).drop_last() =~= seen);
                        if !Self::has_name(&cycles, version.as_str()) {
                            let ghost before = rows(cycles@);
                            cycles.push(Self::dated_cycle(version, day));
                            assert(rows(cycles@) =~= before.push(dated_row(version@, day)));
                        }
                    },
                    None => {},
                }
            }
            i += 1;
        }
        assert(all.take(releases.len() as int) =~= all);
        proof {
            lemma_first_per_key(filter_mapped(all, f), key);
        }
        if cycles.len() == 0 {
            Err(Error::NotFound)
        } else {
            Ok(cycles)
        }
    }

    /// Picks the tags that have a stable version under the rules of the target: for each
    /// version once, at the first tag that carries it, the commit to ask for its day. A tag
    /// with a pre-release part gives no request. Every version is a semantic version
    /// without a leading `v`.
    pub fn requests_from_tags(&self, tags: &Vec<GitHubTag>) -> (requests: Vec<TagRequest>)
        ensures
            request_rows(requests@) == tag_requests(tag_rows(tags@), self.rules()),
            versions_once(request_rows(requests@)),
            forall|i: int, j: int|
                0 <= i < j < requests@.len() ==> (#[trigger] requests@[i]).version@ != (
                #[trigger] requests@[j]).version@,
            forall|i: int|
                0 <= i < requests@.len() ==> is_semver((#[trigger] requests@[i]).version@)
                    && no_leading_v(requests@[i].version@),
    {
        let ghost all = tag_rows(tags@);
        let ghost f = |t: TagRow| tag_request(t, self.rules());
        let ghost key = |r: RequestRow| r.version;
        let mut requests: Vec<TagRequest> = Vec::new();
        let mut i: usize = 0;
        assert(all.take(0) =~= Seq::<TagRow>::empty());
        assert(request_rows(requests@) =~= Seq::<RequestRow>::empty());
        while i < tags.len()
            invariant
                i <= tags.len(),
                all == tag_rows(tags@),
                f == |t: TagRow| tag_request(t, self.rules()),
                key == |r: RequestRow| r.version,
                request_rows(requests@) == first_per_key(filter_mapped(all.take(i as int), f), key),
                forall|j: int|
                    0 <= j < requests@.len() ==> is_semver((#[trigger] requests@[j]).version@)
                        && no_leading_v(requests@[j].version@),
            decreases tags.len() - i,
        {
            assert(all.take(i + 1).drop_last() =~= all.take(i as int));
            assert(all.take(i + 1).last() == tags@[i as int]@);
            let ghost seen = filter_mapped(all.take(i as int), f);
            match stable_version_of(tags[i].name.as_str(), &self.cleaning) {
                Some(version) => {
                    let request = TagRequest { version, commit_url: clone_opt(&tags[i].commit_url) };
                    assert(seen.push(request@).drop_last() =~= seen);
                    if !Self::has_request(&requests, request.version.as_str()) {
                        let ghost before = request_rows(requests@);
                        requests.push(request);
                        assert(request_rows(requests@) =~= before.push(request@));
                    }
                },
                None => {},
            }
            i += 1;
        }
        assert(all.take(tags.len() as int) =~= all);
        proof {
            lemma_first_per_key(filter_mapped(all, f), key);
            assert forall|i: int, j: int| 0 <= i < j < requests@.len() implies (
            #[trigger] requests@[i]).version@ != (#[trigger] requests@[j]).version@ by {
                assert(key(request_rows(requests@)[i]) != key(request_rows(requests@)[j]));
            }
        }
        requests
    }

    /// Makes the cycles of the requests from the days that were fetched for them, place by
    /// place; a request without a day has no release date. No request at all is `NotFound`.
    /// The names are the versions of the requests.
    pub fn cycles_from_tags(requests: &Vec<TagRequest>, days: &Vec<Option<i32>>) -> (out: Result<
        Vec<ProductCycle>,
        Error,
    >)
        ensures
            cycles_outcome(out) == table_or_not_found(dated_rows(request_rows(requests@), days@)),
            out matches Ok(cycles) ==> cycles@.len() == requests@.len() && forall|i: int|
                0 <= i < cycles@.len() ==> (#[trigger] cycles@[i]).name@ == requests@[i].version@,
    {
        let mut cycles: Vec<ProductCycle> = Vec::new();
        let mut i: usize = 0;
        while i < requests.len()
            invariant
                i <= requests.len(),
                cycles@.len() == i,
                forall|j: int|
                    0 <= j < i ==> (#[trigger] cycles@[j])@ == dated_row(
                        requests@[j].version@,
                        day_at(days@, j),
                    ),
            decreases requests.len() - i,
        {
            let day = if i < days.len() {
                days[i]
            } else {
                None
            };
            cycles.push(Self::dated_cycle(requests[i].version.clone(), day));
            i += 1;
        }
        assert(rows(cycles@) =~= dated_rows(request_rows(requests@), days@));
        if cycles.len() == 0 {
            Err(Error::NotFound)
        } else {
            Ok(cycles)
        }
    }
}

} // verus!
