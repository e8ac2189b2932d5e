//! PHP: the page of supported versions and the page of releases.

use vstd::prelude::*;
use crate::assoc::{entries, get, insert, lookup, put_all};
use crate::collect::github::table_or_not_found;
use crate::date::{date_parse, parse_date};
use crate::domain::{cycles_outcome, rows, CycleRow, ProductCycle};
use crate::error::{Error, Failure};
use crate::html::{
    html_rows, html_section_items, section_items_view, select_rows, select_section_items,
    table_view,
};
use crate::seqs::filter_mapped;
use crate::text::{
    contains, contains_text, has_prefix, remove_all, removed, split_on, split_spec, trim,
    trimmed_space, views,
};

verus! {

pub const PHP_SUPPORTED_URL: &'static str = "https://www.php.net/supported-versions.php";

pub const PHP_RELEASES_URL: &'static str = "https://www.php.net/releases/index.php";

/// The form in which both pages write a day.
pub const PHP_DAY_FORMAT: &'static str = "%d %b %Y";

/// A version or a release series with a day.
pub type Dated = (Seq<char>, i32);

/// A section of the releases page as plain values: its heading and the items of the list
/// after it.
pub type Section = (Seq<char>, Option<Seq<Seq<char>>>);

/// The entry of a row of the table of supported versions whose fourth cell reads as `day`:
/// the series named by the first cell ends on that day. A row with fewer than four cells, or
/// without a day, gives none.
pub open spec fn support_entry(cells: Seq<Seq<char>>, day: Option<i32>) -> Option<Dated> {
    if cells.len() >= 4 && day is Some {
        Some((trimmed_space(cells[0]), day->0))
    } else {
        None
    }
}

/// The entry of one row of the table of supported versions.
pub open spec fn supported_row(cells: Seq<Seq<char>>) -> Option<Dated> {
    if cells.len() >= 4 {
        support_entry(cells, date_parse(trimmed_space(cells[3]), PHP_DAY_FORMAT@))
    } else {
        None
    }
}

/// The day on which each series ends, as the table of supported versions gives it.
pub open spec fn end_days(table: Seq<Seq<Seq<char>>>) -> Seq<Dated> {
    put_all(Seq::empty(), filter_mapped(table, |cells: Seq<Seq<char>>| supported_row(cells)))
}

/// The text of the day that a list item names, where the item begins with `Released:`.
pub open spec fn release_day_text(item: Seq<char>) -> Option<Seq<char>> {
    if "Released:"@.is_prefix_of(item) {
        Some(trimmed_space(removed(item, "Released:"@)))
    } else {
        None
    }
}

/// The day that a list item names.
pub open spec fn item_day(item: Seq<char>) -> Option<i32> {
    match release_day_text(item) {
        Some(text) => date_parse(text, PHP_DAY_FORMAT@),
        None => None,
    }
}

/// The day of the first item that names one.
pub open spec fn first_day(items: Seq<Seq<char>>) -> Option<i32>
    decreases items.len(),
{
    if items.len() == 0 {
        None
    } else {
        match first_day(items.drop_last()) {
            Some(d) => Some(d),
            None => item_day(items.last()),
        }
    }
}

/// The release that a section stands for when the first day named in its list is `day`:
/// none where the heading holds an `x`, as the headings of whole series do.
pub open spec fn heading_release(heading: Seq<char>, day: Option<i32>) -> Option<Dated> {
    if contains_text(heading, "x"@) || day is None {
        None
    } else {
        Some((heading, day->0))
    }
}

/// The release that a section stands for.
pub open spec fn section_release(section: Section) -> Option<Dated> {
    match section.1 {
        Some(items) => heading_release(section.0, first_day(items)),
        None => None,
    }
}

/// The releases of the page, in order.
pub open spec fn php_releases(sections: Seq<Section>) -> Seq<Dated> {
    filter_mapped(sections, |s: Section| section_release(s))
}

/// The series of a version: its first two numbers.
pub open spec fn series_of(version: Seq<char>) -> Seq<char> {
    let parts = split_spec(version, '.');
    if parts.len() >= 2 {
        parts[0] + "."@ + parts[1]
    } else {
        parts[0]
    }
}

/// The cycle of a release: it ends when its series does.
pub open spec fn php_cycle(release: Dated, ends: Seq<Dated>) -> CycleRow {
    CycleRow {
        name: release.0,
        release_date: Some(release.1),
        eol_date: lookup(ends, series_of(release.0)),
        lts: false,
    }
}

/// The cycles of the releases, or `NotFound` where there is none.
pub open spec fn php_cycles(releases: Seq<Dated>, ends: Seq<Dated>) -> Result<
    Seq<CycleRow>,
    Failure,
> {
    table_or_not_found(Seq::new(releases.len(), |i: int| php_cycle(releases[i], ends)))
}

/// Once a day has been found among the first items of a list, it is the first day of the
/// whole list.
pub proof fn lemma_first_day_prefix(items: Seq<Seq<char>>, n: int)
    requires
        0 <= n <= items.len(),
        first_day(items.take(n)) is Some,
    ensures
        first_day(items) == first_day(items.take(n)),
    decreases items.len() - n,
{
    if n < items.len() {
        assert(items.take(n + 1).drop_last() =~= items.take(n));
        lemma_first_day_prefix(items, n + 1);
    } else {
        assert(items.take(n) =~= items);
    }
}

/// Collects the versions of PHP.
#[derive(Debug)]
pub struct PhpCollector {
    name: String,
}

impl PhpCollector {
    /// The name of the product that this collector reports under.
    pub closed spec fn label(&self) -> Seq<char> {
        self.name@
    }

    pub fn new(name: &str) -> (collector: Self)
        ensures
            collector.label() == name@,
    {
        Self { name: String::from_str(name) }
    }

    pub fn name(&self) -> (name: &str)
        ensures
            name@ == self.label(),
    {
        self.name.as_str()
    }

    /// The page of supported versions.
    pub fn supported_url(&self) -> (url: &'static str)
        ensures
            url@ == PHP_SUPPORTED_URL@,
    {
        PHP_SUPPORTED_URL
    }

    /// The page of releases.
    pub fn releases_url(&self) -> (url: &'static str)
        ensures
            url@ == PHP_RELEASES_URL@,
    {
        PHP_RELEASES_URL
    }

    /// Makes the entry of one row of the table of supported versions from its cells and the
    /// day that its fourth cell reads as.
    pub fn entry_of_row(cells: &Vec<String>, day: Option<i32>) -> (entry: Option<(String, i32)>)
        ensures
            entry is Some == support_entry(views(cells@), day) is Some,
            entry matches Some(e) ==> Some((e.0@, e.1)) == support_entry(views(cells@), day),
    {
        match day {
            Some(d) => if cells.len() >= 4 {
                Some((String::from_str(trim(cells[0].as_str())), d))
            } else {
                None
            },
            None => None,
        }
    }

    /// Reads the day on which each series ends off the rows of the table of supported
    /// versions.
    pub fn eol_dates(table: &Vec<Vec<String>>) -> (ends: Vec<(String, i32)>)
        ensures
            entries(ends@) == end_days(table_view(table@)),
    {
        let ghost all = table_view(table@);
        let ghost f = |cells: Seq<Seq<char>>| supported_row(cells);
        let mut ends: Vec<(String, i32)> = Vec::new();
        let mut i: usize = 0;
        assert(all.take(0) =~= Seq::<Seq<Seq<char>>>::empty());
        assert(entries(ends@) =~= Seq::<Dated>::empty());
        while i < table.len()
            invariant
                i <= table.len(),
                all == table_view(table@),
                f == |cells: Seq<Seq<char>>| supported_row(cells),
                entries(ends@) == put_all(Seq::empty(), filter_mapped(all.take(i as int), f)),
            decreases table.len() - i,
        {
            assert(all.take(i + 1).drop_last() =~= all.take(i as int));
            assert(all.take(i + 1).last() == views(table@[i as int]@));
            let ghost seen = filter_mapped(all.take(i as int), f);
            let cells = &table[i];
            if cells.len() >= 4 {
                let day = parse_date(trim(cells[3].as_str()), PHP_DAY_FORMAT);
                match Self::entry_of_row(cells, day) {
                    Some(entry) => {
                        assert(seen.push((entry.0@, entry.1)).drop_last() =~= seen);
                        insert(&mut ends, entry.0, entry.1);
                    },
                    None => {},
                }
            }
            i += 1;
        }
        assert(all.take(table.len() as int) =~= all);
        ends
    }

    /// Reads the text of the day off a list item that begins with `Released:`.
    pub fn day_text(item: &str) -> (text: Option<String>)
        ensures
            crate::domain::opt_view(text) == release_day_text(item@),
    {
        if has_prefix(item, "Released:") {
            let rest = remove_all(item, "Released:");
            Some(String::from_str(trim(rest.as_str())))
        } else {
            None
        }
    }

    /// Finds the day of the first item of a list that names one.
    pub fn first_release_day(items: &Vec<String>) -> (day: Option<i32>)
        ensures
            day == first_day(views(items@)),
    {
        let ghost all = views(items@);
        let mut i: usize = 0;
        assert(all.take(0) =~= Seq::<Seq<char>>::empty());
        while i < items.len()
            invariant
                i <= items.len(),
                all == views(items@),
                first_day(all.take(i as int)) is None,
            decreases items.len() - i,
        {
            assert(all.take(i + 1).drop_last() =~= all.take(i as int));
            assert(all.take(i + 1).last() == items@[i as int]@);
            match Self::day_text(items[i].as_str()) {
                Some(text) => match parse_date(text.as_str(), PHP_DAY_FORMAT) {
                    Some(d) => {
                        proof {
                            lemma_first_day_prefix(all, i + 1);
                        }
                        return Some(d);
                    },
                    None => {},
                },
                None => {},
            }
            i += 1;
        }
        assert(all.take(items.len() as int) =~= all);
        None
    }

    /// Makes the release of a section from its heading and the first day named in its list.
    pub fn release_of_heading(heading: &str, day: Option<i32>) -> (release: Option<(String, i32)>)
        ensures
            release is Some == heading_release(heading@, day) is Some,
            release matches Some(r) ==> Some((r.0@, r.1)) == heading_release(heading@, day),
    {
        match day {
            Some(d) => if contains(heading, "x") {
                None
            } else {
                Some((String::from_str(heading), d))
            },
            None => None,
        }
    }

    /// Reads the releases off the sections of the releases page.
    pub fn versions(sections: &Vec<(String, Option<Vec<String>>)>) -> (releases: Vec<
        (String, i32),
    >)
        ensures
            entries(releases@) == php_releases(section_items_view(sections@)),
    {
        let ghost all = section_items_view(sections@);
        let ghost f = |s: Section| section_release(s);
        let mut releases: Vec<(String, i32)> = Vec::new();
        let mut i: usize = 0;
        assert(all.take(0) =~= Seq::<Section>::empty());
        assert(entries(releases@) =~= Seq::<Dated>::empty());
        while i < sections.len()
            invariant
                i <= sections.len(),
                all == section_items_view(sections@),
                f == |s: Section| section_release(s),
                entries(releases@) == filter_mapped(all.take(i as int), f),
            decreases sections.len() - i,
        {
            assert(all.take(i + 1).drop_last() =~= all.take(i as int));
            assert(all.take(i + 1).last() == (
                sections@[i as int].0@,
                crate::html::opt_items_view(sections@[i as int].1),
            ));
            match &sections[i].1 {
                Some(items) => {
                    let day = Self::first_release_day(items);
                    match Self::release_of_heading(sections[i].0.as_str(), day) {
                        Some(release) => {
                            let ghost before = entries(releases@);
                            releases.push(release);
                            assert(entries(releases@) =~= before.push((release.0@, release.1)));
                        },
                        None => {},
                    }
                },
                None => {},
            }
            i += 1;
        }
        assert(all.take(sections.len() as int) =~= all);
        releases
    }

    /// Names the series of a version.
    pub fn series(version: &str) -> (series: String)
        ensures
            series@ == series_of(version@),
    {
        let parts = split_on(version, '.');
        assert(views(parts@)[0] == parts@[0]@);
        let mut series = parts[0].clone();
        if parts.len() >= 2 {
            assert(views(parts@)[1] == parts@[1]@);
            series.append(".");
            series.append(parts[1].as_str());
        }
        series
    }

    /// Makes the cycles of the releases from the days on which the series end.
    pub fn cycles(releases: &Vec<(String, i32)>, ends: &Vec<(String, i32)>) -> (out: Result<
        Vec<ProductCycle>,
        Error,
    >)
        ensures
            cycles_outcome(out) == php_cycles(entries(releases@), entries(ends@)),
    {
        let mut cycles: Vec<ProductCycle> = Vec::new();
        let mut i: usize = 0;
        while i < releases.len()
            invariant
                i <= releases.len(),
                cycles@.len() == i,
                forall|j: int|
                    0 <= j < i ==> (#[trigger] cycles@[j])@ == php_cycle(
                        entries(releases@)[j],
                        entries(ends@),
                    ),
            decreases releases.len() - i,
        {
            let series = Self::series(releases[i].0.as_str());
            cycles.push(
                ProductCycle {
                    name: releases[i].0.clone(),
                    release_date: Some(releases[i].1),
                    eol_date: get(ends, series.as_str()),
                    lts: false,
                },
            );
            i += 1;
        }
        assert(rows(cycles@) =~= Seq::new(
            releases@.len(),
            |i: int| php_cycle(entries(releases@)[i], entries(ends@)),
        ));
        if cycles.len() == 0 {
            Err(Error::NotFound)
        } else {
            Ok(cycles)
        }
    }

    /// Reads the cycles off the page of supported versions and the page of releases.
    pub fn parse(supported: &str, releases: &str) -> (out: Result<Vec<ProductCycle>, Error>)
        ensures
            cycles_outcome(out) == php_cycles(
                php_releases(html_section_items(releases@, "h2"@, "li"@)),
                end_days(html_rows(supported@, "table.standard tbody tr"@, "td"@)),
            ),
    {
        let ends = Self::eol_dates(&select_rows(supported, "table.standard tbody tr", "td"));
        let found = Self::versions(&select_section_items(releases, "h2", "li"));
        Self::cycles(&found, &ends)
    }
}

} // verus!
