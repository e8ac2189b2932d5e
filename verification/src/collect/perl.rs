//! Perl: the releases that MetaCPAN lists.

use vstd::prelude::*;
use crate::assoc::{entries, insert, put_all};
use crate::collect::github::{dated_row, table_or_not_found};
use crate::date::{parse_rfc3339_date, rfc3339_date};
use crate::domain::{cycles_outcome, rows, CycleRow, ProductCycle};
use crate::error::{Error, Failure};
use crate::seqs::filter_mapped;
use crate::text::{
    contains, contains_text, parse_u32, parse_u32_spec, split_on, split_spec, text_eq, views,
};

verus! {

pub const PERL_RELEASES_URL: &'static str =
    "https://fastapi.metacpan.org/v1/release/_search?q=distribution:perl&size=1000";

/// One release as MetaCPAN lists it.
#[derive(Debug, PartialEq, Eq)]
pub struct PerlRelease {
    pub version: String,
    pub date: String,
    pub status: String,
    pub maturity: String,
}

/// A [`PerlRelease`] as plain values.
pub struct PerlRow {
    pub version: Seq<char>,
    pub date: Seq<char>,
    pub status: Seq<char>,
    pub maturity: Seq<char>,
}

impl View for PerlRelease {
    type V = PerlRow;

    open spec fn view(&self) -> PerlRow {
        PerlRow {
            version: self.version@,
            date: self.date@,
            status: self.status@,
            maturity: self.maturity@,
        }
    }
}

/// The views of releases.
pub open spec fn perl_rows(releases: Seq<PerlRelease>) -> Seq<PerlRow> {
    releases.map_values(|r: PerlRelease| r@)
}

/// A version with the day of its release, if that is known.
pub type Entry = (Seq<char>, Option<i32>);

/// Whether a release counts: it is on CPAN, released, no development version (those carry
/// an underscore), and its version has at least two parts, the first a number from 5 on.
pub open spec fn counts(release: PerlRow) -> bool {
    let parts = split_spec(release.version, '.');
    &&& release.status == "cpan"@
    &&& release.maturity == "released"@
    &&& !contains_text(release.version, "_"@)
    &&& parts.len() >= 2
    &&& parse_u32_spec(parts[0]) matches Some(major) && major >= 5
}

/// The entry of a release whose date reads as `day`.
pub open spec fn release_entry(release: PerlRow, day: Option<i32>) -> Option<Entry> {
    if counts(release) {
        Some((release.version, day))
    } else {
        None
    }
}

/// The entries of the releases that count: of a version listed twice, the later day at
/// the earlier place.
pub open spec fn perl_entries(releases: Seq<PerlRow>) -> Seq<Entry> {
    put_all(
        Seq::empty(),
        filter_mapped(releases, |r: PerlRow| release_entry(r, rfc3339_date(r.date))),
    )
}

/// The parts of a version that are numbers, in order.
pub open spec fn numeric_parts(version: Seq<char>) -> Seq<u32> {
    filter_mapped(split_spec(version, '.'), |p: Seq<char>| parse_u32_spec(p))
}

/// Order on lists of numbers, place by place; a proper prefix comes first.
pub open spec fn parts_lt(a: Seq<u32>, b: Seq<u32>) -> bool
    decreases a.len(),
{
    if b.len() == 0 {
        false
    } else if a.len() == 0 {
        true
    } else if a[0] != b[0] {
        a[0] < b[0]
    } else {
        parts_lt(a.skip(1), b.skip(1))
    }
}

/// Whether one entry comes before another by the numbers of its version.
pub open spec fn entry_lt(a: Entry, b: Entry) -> bool {
    parts_lt(numeric_parts(a.0), numeric_parts(b.0))
}

/// A sorted list with `x` put behind every entry that does not come after it.
pub open spec fn placed(sorted: Seq<Entry>, x: Entry) -> Seq<Entry>
    decreases sorted.len(),
{
    if sorted.len() == 0 {
        seq![x]
    } else if entry_lt(x, sorted.last()) {
        placed(sorted.drop_last(), x).push(sorted.last())
    } else {
        sorted.push(x)
    }
}

/// The entries sorted by the numbers of their versions, entries that compare equal
/// keeping their order.
pub open spec fn sorted_entries(items: Seq<Entry>) -> Seq<Entry>
    decreases items.len(),
{
    if items.len() == 0 {
        Seq::empty()
    } else {
        placed(sorted_entries(items.drop_last()), items.last())
    }
}

/// Whether no entry comes after a later one.
pub open spec fn in_order(items: Seq<Entry>) -> bool {
    forall|i: int, j: int|
        0 <= i < j < items.len() ==> !entry_lt(#[trigger] items[j], #[trigger] items[i])
}

/// The cycles of the releases: one for each version that counts, sorted by the numbers of
/// the versions; `NotFound` where there is none.
pub open spec fn perl_cycles(releases: Seq<PerlRow>) -> Result<Seq<CycleRow>, Failure> {
    let sorted = sorted_entries(perl_entries(releases));
    table_or_not_found(Seq::new(sorted.len(), |i: int| dated_row(sorted[i].0, sorted[i].1)))
}

/// Of two lists of numbers, at most one comes before the other.
pub proof fn lemma_parts_lt_asymmetric(a: Seq<u32>, b: Seq<u32>)
    ensures
        !(parts_lt(a, b) && parts_lt(b, a)),
    decreases a.len(),
{
    if a.len() > 0 && b.len() > 0 && a[0] == b[0] {
        lemma_parts_lt_asymmetric(a.skip(1), b.skip(1));
    }
}

/// Where `a` does not come after `b`, and `b` not after `c`, `a` does not come after `c`.
pub proof fn lemma_parts_le_transitive(a: Seq<u32>, b: Seq<u32>, c: Seq<u32>)
    requires
        !parts_lt(b, a),
        !parts_lt(c, b),
    ensures
        !parts_lt(c, a),
    decreases a.len(),
{
    if a.len() > 0 && b.len() > 0 && c.len() > 0 && a[0] == b[0] && b[0] == c[0] {
        lemma_parts_le_transitive(a.skip(1), b.skip(1), c.skip(1));
    }
}

/// Placing an entry into a list that is in order gives a list that is in order and has
/// one entry more.
pub proof fn lemma_placed(sorted: Seq<Entry>, x: Entry)
    requires
        in_order(sorted),
    ensures
        in_order(placed(sorted, x)),
        placed(sorted, x).len() == sorted.len() + 1,
        placed(sorted, x).to_multiset() == sorted.to_multiset().insert(x),
        forall|k: int|
            0 <= k < placed(sorted, x).len() ==> (#[trigger] placed(sorted, x)[k]) == x
                || sorted.contains(placed(sorted, x)[k]),
    decreases sorted.len(),
{
    broadcast use vstd::seq_lib::group_to_multiset_ensures;

    let out = placed(sorted, x);
    if sorted.len() == 0 {
        assert(out =~= sorted.push(x));
    } else if entry_lt(x, sorted.last()) {
        let front = sorted.drop_last();
        let last = sorted.last();
        assert(forall|i: int| 0 <= i < front.len() ==> front[i] == sorted[i]);
        lemma_placed(front, x);
        let mid = placed(front, x);
        assert(sorted =~= front.push(last));
        assert(out.to_multiset() =~= sorted.to_multiset().insert(x));
        assert forall|k: int| 0 <= k < out.len() implies (#[trigger] out[k]) == x
            || sorted.contains(out[k]) by {
            if k < mid.len() {
                assert(out[k] == mid[k]);
                if mid[k] != x {
                    let m = choose|m: int| 0 <= m < front.len() && front[m] == mid[k];
                    assert(sorted[m] == out[k]);
                }
            } else {
                assert(sorted[sorted.len() - 1] == out[k]);
            }
        }
        assert forall|i: int, j: int| 0 <= i < j < out.len() implies !entry_lt(
            #[trigger] out[j],
            #[trigger] out[i],
        ) by {
            if j == mid.len() {
                assert(out[i] == mid[i]);
                if mid[i] == x {
                    lemma_parts_lt_asymmetric(numeric_parts(x.0), numeric_parts(last.0));
                } else {
                    let m = choose|m: int| 0 <= m < front.len() && front[m] == mid[i];
                    assert(!entry_lt(sorted[sorted.len() - 1], sorted[m]));
                }
            } else {
                assert(!entry_lt(mid[j], mid[i]));
            }
        }
    } else {
        assert forall|i: int, j: int| 0 <= i < j < out.len() implies !entry_lt(
            #[trigger] out[j],
            #[trigger] out[i],
        ) by {
            if j == sorted.len() {
                if i < sorted.len() - 1 {
                    assert(!entry_lt(sorted[sorted.len() - 1], sorted[i]));
                    lemma_parts_le_transitive(
                        numeric_parts(sorted[i].0),
                        numeric_parts(sorted.last().0),
                        numeric_parts(x.0),
                    );
                }
            } else {
                assert(!entry_lt(sorted[j], sorted[i]));
            }
        }
        assert forall|k: int| 0 <= k < out.len() implies (#[trigger] out[k]) == x
            || sorted.contains(out[k]) by {
            if k < sorted.len() {
                assert(sorted[k] == out[k]);
            }
        }
    }
}

/// Sorting gives a list that is in order and holds the same entries, each as often as
/// before.
pub proof fn lemma_sorted_entries(items: Seq<Entry>)
    ensures
        in_order(sorted_entries(items)),
        sorted_entries(items).len() == items.len(),
        sorted_entries(items).to_multiset() == items.to_multiset(),
    decreases items.len(),
{
    broadcast use vstd::seq_lib::group_to_multiset_ensures;

    if items.len() > 0 {
        let front = items.drop_last();
        lemma_sorted_entries(front);
        lemma_placed(sorted_entries(front), items.last());
        assert(items =~= front.push(items.last()));
    }
}

/// Whether one list of numbers comes before another.
pub fn parts_less(a: &Vec<u32>, b: &Vec<u32>) -> (less: bool)
    ensures
        less == parts_lt(a@, b@),
{
    let mut i: usize = 0;
    assert(a@.skip(0) =~= a@ && b@.skip(0) =~= b@);
    while i < a.len() && i < b.len()
        invariant
            i <= a.len(),
            i <= b.len(),
            parts_lt(a@, b@) == parts_lt(a@.skip(i as int), b@.skip(i as int)),
        decreases a.len() - i,
    {
        if a[i] != b[i] {
            return a[i] < b[i];
        }
        assert(a@.skip(i as int).skip(1) =~= a@.skip(i + 1));
        assert(b@.skip(i as int).skip(1) =~= b@.skip(i + 1));
        i += 1;
    }
    i < b.len()
}

/// Reads the parts of a version that are numbers.
pub fn numbers_of(version: &str) -> (numbers: Vec<u32>)
    ensures
        numbers@ == numeric_parts(version@),
{
    let parts = split_on(version, '.');
    let ghost all = views(parts@);
    let ghost f = |p: Seq<char>| parse_u32_spec(p);
    let mut numbers: Vec<u32> = Vec::new();
    let mut i: usize = 0;
    assert(all.take(0) =~= Seq::<Seq<char>>::empty());
    while i < parts.len()
        invariant
            i <= parts.len(),
            all == views(parts@),
            all == split_spec(version@, '.'),
            f == |p: Seq<char>| parse_u32_spec(p),
            numbers@ == filter_mapped(all.take(i as int), f),
        decreases parts.len() - i,
    {
        assert(all.take(i + 1).drop_last() =~= all.take(i as int));
        assert(all.take(i + 1).last() == parts@[i as int]@);
        match parse_u32(parts[i].as_str()) {
            Some(n) => {
                numbers.push(n);
            },
            None => {},
        }
        i += 1;
    }
    assert(all.take(parts.len() as int) =~= all);
    numbers
}

/// Whether a release counts.
pub fn is_counted(release: &PerlRelease) -> (yes: bool)
    ensures
        yes == counts(release@),
{
    if !text_eq(release.status.as_str(), "cpan") || !text_eq(release.maturity.as_str(), "released") {
        return false;
    }
    if contains(release.version.as_str(), "_") {
        return false;
    }
    let parts = split_on(release.version.as_str(), '.');
    if parts.len() < 2 {
        return false;
    }
    assert(views(parts@)[0] == parts@[0]@);
    match parse_u32(parts[0].as_str()) {
        Some(major) => major >= 5,
        None => false,
    }
}

/// Puts an entry behind every entry of a sorted list that does not come after it.
pub fn place(sorted: &mut Vec<(String, Option<i32>)>, version: String, day: Option<i32>)
    ensures
        entries(final(sorted)@) == placed(entries(old(sorted)@), (version@, day)),
{
    let ghost all = entries(sorted@);
    let ghost x = (version@, day);
    let key = numbers_of(version.as_str());
    let mut i: usize = sorted.len();
    let mut searching = true;
    assert(all.take(i as int) =~= all);
    assert(all.skip(i as int) =~= Seq::<Entry>::empty());
    assert(placed(all, x) + Seq::<Entry>::empty() =~= placed(all, x));
    while i > 0 && searching
        invariant
            i <= sorted.len(),
            sorted@ == old(sorted)@,
            all == entries(sorted@),
            x == (version@, day),
            key@ == numeric_parts(version@),
            placed(all, x) == placed(all.take(i as int), x) + all.skip(i as int),
            !searching ==> i > 0 && !entry_lt(x, all[i - 1]),
        decreases i, if searching { 1nat } else { 0nat },
    {
        let ghost head = all.take(i as int);
        assert(head.last() == (sorted@[i - 1].0@, sorted@[i - 1].1));
        assert(head.drop_last() =~= all.take(i - 1));
        let other = numbers_of(sorted[i - 1].0.as_str());
        if parts_less(&key, &other) {
            assert(placed(all.take(i - 1), x).push(head.last()) + all.skip(i as int) =~= placed(
                all.take(i - 1),
                x,
            ) + all.skip(i - 1)) by {
                assert(all.skip(i - 1) =~= seq![head.last()] + all.skip(i as int));
            }
            i -= 1;
        } else {
            searching = false;
        }
    }
    let ghost before = entries(sorted@);
    proof {
        let head = all.take(i as int);
        if i == 0 {
            assert(head =~= Seq::<Entry>::empty());
        } else {
            assert(head.last() == all[i - 1]);
        }
        assert(placed(head, x) =~= head.push(x));
    }
    sorted.insert(i, (version, day));
    assert(entries(sorted@) =~= before.take(i as int).push(x) + before.skip(i as int));
}

/// Collects the versions of Perl.
#[derive(Debug)]
pub struct PerlCollector;

impl PerlCollector {
    pub fn name(&self) -> (name: &'static str)
        ensures
            name@ == "perl"@,
    {
        "perl"
    }

    /// The listing to fetch.
    pub fn url(&self) -> (url: &'static str)
        ensures
            url@ == PERL_RELEASES_URL@,
    {
        PERL_RELEASES_URL
    }

    /// Sorts the entries by the numbers of their versions.
    pub fn sort(items: &Vec<(String, Option<i32>)>) -> (sorted: Vec<(String, Option<i32>)>)
        ensures
            entries(sorted@) == sorted_entries(entries(items@)),
    {
        let ghost all = entries(items@);
        let mut sorted: Vec<(String, Option<i32>)> = Vec::new();
        let mut i: usize = 0;
        assert(all.take(0) =~= Seq::<Entry>::empty());
        assert(entries(sorted@) =~= Seq::<Entry>::empty());
        while i < items.len()
            invariant
                i <= items.len(),
                all == entries(items@),
                entries(sorted@) == sorted_entries(all.take(i as int)),
            decreases items.len() - i,
        {
            assert(all.take(i + 1).drop_last() =~= all.take(i as int));
            assert(all.take(i + 1).last() == (items@[i as int].0@, items@[i as int].1));
            place(&mut sorted, items[i].0.clone(), items[i].1);
            i += 1;
        }
        assert(all.take(items.len() as int) =~= all);
        sorted
    }

    /// Reads the entries off the releases.
    pub fn entries_of(releases: &Vec<PerlRelease>) -> (table: Vec<(String, Option<i32>)>)
        ensures
            entries(table@) == perl_entries(perl_rows(releases@)),
    {
        let ghost all = perl_rows(releases@);
        let ghost f = |r: PerlRow| release_entry(r, rfc3339_date(r.date));
        let mut table: Vec<(String, Option<i32>)> = Vec::new();
        let mut i: usize = 0;
        assert(all.take(0) =~= Seq::<PerlRow>::empty());
        assert(entries(table@) =~= Seq::<Entry>::empty());
        while i < releases.len()
            invariant
                i <= releases.len(),
                all == perl_rows(releases@),
                f == |r: PerlRow| release_entry(r, rfc3339_date(r.date)),
                entries(table@) == put_all(Seq::empty(), filter_mapped(all.take(i as int), f)),
            decreases releases.len() - i,
        {
            assert(all.take(i + 1).drop_last() =~= all.take(i as int));
            assert(all.take(i + 1).last() == releases@[i as int]@);
            let ghost seen = filter_mapped(all.take(i as int), f);
            if is_counted(&releases[i]) {
                let day = parse_rfc3339_date(releases[i].date.as_str());
                assert(seen.push((releases@[i as int].version@, day)).drop_last() =~= seen);
                insert(&mut table, releases[i].version.clone(), day);
            }
            i += 1;
        }
        assert(all.take(releases.len() as int) =~= all);
        table
    }

    /// Reads the cycles off the releases.
    pub fn cycles(releases: &Vec<PerlRelease>) -> (out: Result<Vec<ProductCycle>, Error>)
        ensures
            cycles_outcome(out) == perl_cycles(perl_rows(releases@)),
    {
        let table = Self::entries_of(releases);
        let sorted = Self::sort(&table);
        let mut cycles: Vec<ProductCycle> = Vec::new();
        let mut i: usize = 0;
        while i < sorted.len()
            invariant
                i <= sorted.len(),
                cycles@.len() == i,
                forall|j: int|
                    0 <= j < i ==> (#[trigger] cycles@[j])@ == dated_row(
                        sorted@[j].0@,
                        sorted@[j].1,
                    ),
            decreases sorted.len() - i,
        {
            cycles.push(
                ProductCycle {
                    name: sorted[i].0.clone(),
                    release_date: sorted[i].1,
                    eol_date: None,
                    lts: false,
                },
            );
            i += 1;
        }
        assert(rows(cycles@) =~= Seq::new(
            sorted@.len(),
            |i: int| dated_row(entries(sorted@)[i].0, entries(sorted@)[i].1),
        ));
        if cycles.len() == 0 {
            Err(Error::NotFound)
        } else {
            Ok(cycles)
        }
    }
}

} // verus!
