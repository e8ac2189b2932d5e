//! Go: the release history page.

use vstd::prelude::*;
use crate::assoc::{entries, get, insert, lookup, put_all};
use crate::collect::github::table_or_not_found;
use crate::date::{date_parse, parse_date};
use crate::domain::{cycles_outcome, opt_view, rows, CycleRow, ProductCycle};
use crate::error::{Error, Failure};
use crate::html::{html_text, page_text};
use crate::pattern::{captures_all, group, group_at, group_views, match_views, regex_captures_all};
use crate::seqs::filter_mapped;
use crate::text::{
    before_last, contains, contains_text, decimal_digits, decimal_text, has_suffix, parse_u32,
    parse_u32_spec, split_on, split_spec, up_to_last, views,
};

verus! {

pub const GO_HISTORY_URL: &'static str = "https://go.dev/doc/devel/release";

/// A line of the history that announces a release; the first group is the version, the
/// second the day.
pub const GO_RELEASE_PATTERN: &'static str =
    r"go(\d+\.\d+(?:\.\d+)?(?:rc\d+)?)\s+\(released\s+([\d-]+)\)";

/// A release: its version and its day.
pub type Release = (Seq<char>, i32);

/// The release that an announcement stands for, where its day reads as `day`.
pub open spec fn announced(groups: Seq<Option<Seq<char>>>, day: Option<i32>) -> Option<Release> {
    match (group_at(groups, 1), day) {
        (Some(version), Some(d)) => Some((version, d)),
        _ => None,
    }
}

/// The day that an announcement names.
pub open spec fn announced_day(groups: Seq<Option<Seq<char>>>) -> Option<i32> {
    match group_at(groups, 2) {
        Some(text) => date_parse(text, "%Y-%m-%d"@),
        None => None,
    }
}

/// The releases that the announcements stand for, in order.
pub open spec fn announced_all(matches: Seq<Seq<Option<Seq<char>>>>) -> Seq<Release> {
    filter_mapped(matches, |g: Seq<Option<Seq<char>>>| announced(g, announced_day(g)))
}

/// The release line that a release opens, with its day: a version that ends in `.0` opens
/// the line named by what stands before that.
pub open spec fn opened_line(release: Release) -> Option<Release> {
    if ".0"@.is_suffix_of(release.0) {
        Some((before_last(release.0, '.'), release.1))
    } else {
        None
    }
}

/// The day of each version: of a version announced twice, the later day at the earlier
/// place.
pub open spec fn release_days(releases: Seq<Release>) -> Seq<Release> {
    put_all(Seq::empty(), releases)
}

/// The day on which each release line opened.
pub open spec fn line_days(releases: Seq<Release>) -> Seq<Release> {
    put_all(Seq::empty(), filter_mapped(releases, |r: Release| opened_line(r)))
}

/// The name of the release line two minor versions after that of a version, where the
/// version has a minor number and that number plus two fits 32 bits.
pub open spec fn line_after_next(version: Seq<char>) -> Option<Seq<char>> {
    let parts = split_spec(version, '.');
    if parts.len() >= 2 {
        match parse_u32_spec(parts[1]) {
            Some(minor) => if minor + 2 <= u32::MAX {
                Some(parts[0] + "."@ + decimal_digits((minor + 2) as nat))
            } else {
                None
            },
            None => None,
        }
    } else {
        None
    }
}

/// The end of life of a version: the day on which the line two minor versions later
/// opened, if it has.
pub open spec fn end_of_life(version: Seq<char>, lines: Seq<Release>) -> Option<i32> {
    match line_after_next(version) {
        Some(line) => lookup(lines, line),
        None => None,
    }
}

/// The cycle of a release; a release candidate has none.
pub open spec fn release_row(release: Release, lines: Seq<Release>) -> Option<CycleRow> {
    if contains_text(release.0, "rc"@) {
        None
    } else {
        Some(
            CycleRow {
                name: release.0,
                release_date: Some(release.1),
                eol_date: end_of_life(release.0, lines),
                lts: false,
            },
        )
    }
}

/// The cycles of the releases: one for each version that is no release candidate, in the
/// order in which the versions were first announced; `NotFound` where there is none.
pub open spec fn go_cycles(releases: Seq<Release>) -> Result<Seq<CycleRow>, Failure> {
    table_or_not_found(
        filter_mapped(
            release_days(releases),
            |r: Release| release_row(r, line_days(releases)),
        ),
    )
}

/// Collects the versions of Go.
#[derive(Debug)]
pub struct GoCollector {
    name: String,
}

impl GoCollector {
    /// The name of the product that this collector reports under.
    pub closed spec fn label(&self) -> Seq<char> {
        self.name@
    }

    pub fn new(name: &str) -> (collector: Self)
        ensures
            collector.label() == name@,
    {
        Self { name: String::from_str(name) }
    }

    pub fn name(&self) -> (name: &str)
        ensures
            name@ == self.label(),
    {
        self.name.as_str()
    }

    /// The page to fetch.
    pub fn url(&self) -> (url: &'static str)
        ensures
            url@ == GO_HISTORY_URL@,
    {
        GO_HISTORY_URL
    }

    /// Reads the releases off the announcements found in the page.
    pub fn releases(matches: &Vec<Vec<Option<String>>>) -> (releases: Vec<(String, i32)>)
        ensures
            entries(releases@) == announced_all(match_views(matches@)),
    {
        let ghost all = match_views(matches@);
        let ghost f = |g: Seq<Option<Seq<char>>>| announced(g, announced_day(g));
        let mut releases: Vec<(String, i32)> = Vec::new();
        let mut i: usize = 0;
        assert(all.take(0) =~= Seq::<Seq<Option<Seq<char>>>>::empty());
        assert(entries(releases@) =~= Seq::<Release>::empty());
        while i < matches.len()
            invariant
                i <= matches.len(),
                all == match_views(matches@),
                f == |g: Seq<Option<Seq<char>>>| announced(g, announced_day(g)),
                entries(releases@) == filter_mapped(all.take(i as int), f),
            decreases matches.len() - i,
        {
            assert(all.take(i + 1).drop_last() =~= all.take(i as int));
            assert(all.take(i + 1).last() == group_views(matches@[i as int]@));
            let day = match group(&matches[i], 2) {
                Some(text) => parse_date(text.as_str(), "%Y-%m-%d"),
                None => None,
            };
            match (group(&matches[i], 1), day) {
                (Some(version), Some(d)) => {
                    let ghost before = entries(releases@);
                    releases.push((version, d));
                    assert(entries(releases@) =~= before.push((version@, d)));
                },
                _ => {},
            }
            i += 1;
        }
        assert(all.take(matches.len() as int) =~= all);
        releases
    }

    /// Names the release line two minor versions after that of a version.
    pub fn next_but_one_line(version: &str) -> (line: Option<String>)
        ensures
            opt_view(line) == line_after_next(version@),
    {
        let parts = split_on(version, '.');
        if parts.len() >= 2 {
            assert(views(parts@)[0] == parts@[0]@ && views(parts@)[1] == parts@[1]@);
            match parse_u32(parts[1].as_str()) {
                Some(minor) => match minor.checked_add(2) {
                    Some(next) => {
                        let mut line = parts[0].clone();
                        line.append(".");
                        let number = decimal_text(next as u64);
                        line.append(number.as_str());
                        Some(line)
                    },
                    None => None,
                },
                None => None,
            }
        } else {
            None
        }
    }

    /// Makes the cycles of the releases.
    pub fn cycles_from_releases(releases: &Vec<(String, i32)>) -> (out: Result<
        Vec<ProductCycle>,
        Error,
    >)
        ensures
            cycles_outcome(out) == go_cycles(entries(releases@)),
    {
        let ghost all = entries(releases@);
        let ghost opens = |r: Release| opened_line(r);
        let mut days: Vec<(String, i32)> = Vec::new();
        let mut lines: Vec<(String, i32)> = Vec::new();
        let mut i: usize = 0;
        assert(all.take(0) =~= Seq::<Release>::empty());
        assert(entries(days@) =~= Seq::<Release>::empty());
        assert(entries(lines@) =~= Seq::<Release>::empty());
        while i < releases.len()
            invariant
                i <= releases.len(),
                all == entries(releases@),
                opens == |r: Release| opened_line(r),
                entries(days@) == put_all(Seq::empty(), all.take(i as int)),
                entries(lines@) == put_all(Seq::empty(), filter_mapped(all.take(i as int), opens)),
            decreases releases.len() - i,
        {
            assert(all.take(i + 1).drop_last() =~= all.take(i as int));
            assert(all.take(i + 1).last() == (releases@[i as int].0@, releases@[i as int].1));
            let version = releases[i].0.as_str();
            let day = releases[i].1;
            if has_suffix(version, ".0") {
                let ghost seen = filter_mapped(all.take(i as int), opens);
                let line = up_to_last(version, '.');
                assert(seen.push((line@, day)).drop_last() =~= seen);
                insert(&mut lines, String::from_str(line), day);
            }
            insert(&mut days, releases[i].0.clone(), day);
            i += 1;
        }
        assert(all.take(releases.len() as int) =~= all);
        let ghost table = entries(days@);
        let ghost f = |r: Release| release_row(r, entries(lines@));
        let mut cycles: Vec<ProductCycle> = Vec::new();
        let mut k: usize = 0;
        assert(table.take(0) =~= Seq::<Release>::empty());
        assert(rows(cycles@) =~= Seq::<CycleRow>::empty());
        while k < days.len()
            invariant
                k <= days.len(),
                table == entries(days@),
                f == |r: Release| release_row(r, entries(lines@)),
                rows(cycles@) == filter_mapped(table.take(k as int), f),
            decreases days.len() - k,
        {
            assert(table.take(k + 1).drop_last() =~= table.take(k as int));
            assert(table.take(k + 1).last() == (days@[k as int].0@, days@[k as int].1));
            let version = days[k].0.as_str();
            if !contains(version, "rc") {
                let eol = match Self::next_but_one_line(version) {
                    Some(line) => get(&lines, line.as_str()),
                    None => None,
                };
                let ghost before = rows(cycles@);
                let cycle = ProductCycle {
                    name: days[k].0.clone(),
                    release_date: Some(days[k].1),
                    eol_date: eol,
                    lts: false,
                };
                cycles.push(cycle);
                assert(rows(cycles@) =~= before.push(cycle@));
            }
            k += 1;
        }
        assert(table.take(days.len() as int) =~= table);
        if cycles.len() == 0 {
            Err(Error::NotFound)
        } else {
            Ok(cycles)
        }
    }

    /// Reads the cycles off the text of the history page.
    pub fn cycles_from_text(text: &str) -> (out: Result<Vec<ProductCycle>, Error>)
        ensures
            cycles_outcome(out) == go_cycles(
                announced_all(regex_captures_all(GO_RELEASE_PATTERN@, text@)),
            ),
    {
        let matches = captures_all(GO_RELEASE_PATTERN, text);
        let releases = Self::releases(&matches);
        Self::cycles_from_releases(&releases)
    }

    /// Reads the cycles off the history page.
    pub fn parse(html: &str) -> (out: Result<Vec<ProductCycle>, Error>)
        ensures
            cycles_outcome(out) == go_cycles(
                announced_all(regex_captures_all(GO_RELEASE_PATTERN@, html_text(html@))),
            ),
    {
        let text = page_text(html);
        Self::cycles_from_text(text.as_str())
    }
}

} // verus!
