//! Eclipse Temurin: the release listing of Adoptium, with the day of each release taken
//! from the tag of its binaries on GitHub.

use vstd::prelude::*;
use crate::collect::github::table_or_not_found;
use crate::domain::{cycles_outcome, opt_view, rows, CycleRow, ProductCycle};
use crate::error::{Error, Failure};
use crate::text::{decimal_digits, decimal_text, text_eq, trim, trimmed_space};

verus! {

pub const ECLIPSE_TEMURIN_BASE_URL: &'static str =
    "https://api.adoptium.net/v3/info/release_versions?architecture=x64&release_type=ga&vendor=eclipse";

/// One version of the listing.
#[derive(Debug, PartialEq, Eq)]
pub struct VersionInfo {
    pub major: u32,
    pub optional: Option<String>,
    pub semver: String,
}

/// A [`VersionInfo`] as plain values.
pub struct InfoRow {
    pub major: u32,
    pub optional: Option<Seq<char>>,
    pub semver: Seq<char>,
}

impl View for VersionInfo {
    type V = InfoRow;

    open spec fn view(&self) -> InfoRow {
        InfoRow { major: self.major, optional: opt_view(self.optional), semver: self.semver@ }
    }
}

/// The views of versions.
pub open spec fn info_rows(infos: Seq<VersionInfo>) -> Seq<InfoRow> {
    infos.map_values(|v: VersionInfo| v@)
}

/// The address of one page of the listing, pages counted from 0.
pub open spec fn listing_page_url(page: nat) -> Seq<char> {
    ECLIPSE_TEMURIN_BASE_URL@ + "&page="@ + decimal_digits(page) + "&page_size=100"@
}

/// The address that dates a version: the tag of the binaries of its major line.
pub open spec fn tag_url(info: InfoRow) -> Seq<char> {
    "https://api.github.com/repos/adoptium/temurin"@ + decimal_digits(info.major as nat)
        + "-binaries/git/tags/"@ + info.semver
}

/// Whether the body of a page says that the listing has ended: it is blank, or an empty
/// object.
pub open spec fn ends_listing(body: Seq<char>) -> bool {
    trimmed_space(body).len() == 0 || trimmed_space(body) == "{}"@
}

/// The day of the version at a place: the one fetched for it, if one was.
pub open spec fn day_at(days: Seq<Option<i32>>, place: int) -> Option<i32> {
    if 0 <= place < days.len() {
        days[place]
    } else {
        None
    }
}

/// The cycle of a version released on a day: it is a long-term-support release where the
/// listing marks it `LTS`.
pub open spec fn temurin_cycle(info: InfoRow, day: Option<i32>) -> CycleRow {
    CycleRow {
        name: info.semver,
        release_date: day,
        eol_date: None,
        lts: info.optional == Some("LTS"@),
    }
}

/// The cycles of the versions with the days fetched for them, place by place; `NotFound`
/// where there is no version.
pub open spec fn temurin_cycles(infos: Seq<InfoRow>, days: Seq<Option<i32>>) -> Result<
    Seq<CycleRow>,
    Failure,
> {
    table_or_not_found(Seq::new(infos.len(), |i: int| temurin_cycle(infos[i], day_at(days, i))))
}

/// Collects the versions of Eclipse Temurin.
#[derive(Debug)]
pub struct EclipseTemurinCollector {
    name: String,
}

impl EclipseTemurinCollector {
    /// The name of the product that this collector reports under.
    pub closed spec fn label(&self) -> Seq<char> {
        self.name@
    }

    pub fn new(name: &str) -> (collector: Self)
        ensures
            collector.label() == name@,
    {
        Self { name: String::from_str(name) }
    }

    pub fn name(&self) -> (name: &str)
        ensures
            name@ == self.label(),
    {
        self.name.as_str()
    }

    /// The address of one page of the listing, pages counted from 0.
    pub fn page_url(page: usize) -> (url: String)
        ensures
            url@ == listing_page_url(page as nat),
    {
        let mut url = String::from_str(ECLIPSE_TEMURIN_BASE_URL);
        url.append("&page=");
        let number = decimal_text(page as u64);
        url.append(number.as_str());
        url.append("&page_size=100");
        url
    }

    /// Whether the body of a page says that the listing has ended.
    pub fn is_last_page(body: &str) -> (last: bool)
        ensures
            last == ends_listing(body@),
    {
        let inner = trim(body);
        inner.unicode_len() == 0 || text_eq(inner, "{}")
    }

    /// The address that dates a version.
    pub fn commit_url(info: &VersionInfo) -> (url: String)
        ensures
            url@ == tag_url(info@),
    {
        let mut url = String::from_str("https://api.github.com/repos/adoptium/temurin");
        let major = decimal_text(info.major as u64);
        url.append(major.as_str());
        url.append("-binaries/git/tags/");
        url.append(info.semver.as_str());
        url
    }

    /// Makes the cycle of one version.
    pub fn cycle(info: &VersionInfo, day: Option<i32>) -> (cycle: ProductCycle)
        ensures
            cycle@ == temurin_cycle(info@, day),
    {
        let lts = match &info.optional {
            Some(mark) => text_eq(mark.as_str(), "LTS"),
            None => false,
        };
        ProductCycle { name: info.semver.clone(), release_date: day, eol_date: None, lts }
    }

    /// Makes the cycles of the versions from the days that were fetched for them, place by
    /// place.
    pub fn cycles(infos: &Vec<VersionInfo>, days: &Vec<Option<i32>>) -> (out: Result<
        Vec<ProductCycle>,
        Error,
    >)
        ensures
            cycles_outcome(out) == temurin_cycles(info_rows(infos@), days@),
    {
        let mut cycles: Vec<ProductCycle> = Vec::new();
        let mut i: usize = 0;
        while i < infos.len()
            invariant
                i <= infos.len(),
                cycles@.len() == i,
                forall|j: int|
                    0 <= j < i ==> (#[trigger] cycles@[j])@ == temurin_cycle(
                        infos@[j]@,
                        day_at(days@, j),
                    ),
            decreases infos.len() - i,
        {
            let day = if i < days.len() {
                days[i]
            } else {
                None
            };
            cycles.push(Self::cycle(&infos[i], day));
            i += 1;
        }
        assert(rows(cycles@) =~= Seq::new(
            infos@.len(),
            |i: int| temurin_cycle(info_rows(infos@)[i], day_at(days@, i)),
        ));
        if cycles.len() == 0 {
            Err(Error::NotFound)
        } else {
            Ok(cycles)
        }
    }
}

} // verus!
