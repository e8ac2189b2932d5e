//! Merging the tables of the sources that succeeded into one table of records.

use vstd::prelude::*;
use crate::domain::{opt_view, version_rows, SoftwareVersion, VersionRow};
use crate::normalize::no_leading_v;
use crate::record::well_formed;
use crate::semver::{is_semver, parse_version, SemVer};
use crate::store::{
    holds, lemma_upserted_all, lemma_upserted_all_fresh, names_distinct, upserted_all, VersionTable,
};
use crate::text::{strip_suffix, without_suffix};

verus! {

/// A version with the suffix taken off, unless what is left is no semantic version.
pub open spec fn clean_version(version: Seq<char>, suffix: Option<Seq<char>>) -> Seq<char> {
    match suffix {
        Some(s) => if is_semver(without_suffix(version, s)) {
            without_suffix(version, s)
        } else {
            version
        },
        None => version,
    }
}

/// A record after the cleaning pass on its latest versions.
pub open spec fn clean_row(row: VersionRow, suffix: Option<Seq<char>>) -> VersionRow {
    VersionRow {
        latest_version: clean_version(row.latest_version, suffix),
        latest_lts_version: match row.latest_lts_version {
            Some(v) => Some(clean_version(v, suffix)),
            None => None,
        },
        ..row
    }
}

/// The rows after the cleaning pass.
pub open spec fn cleaned_rows(rows: Seq<VersionRow>, suffix: Option<Seq<char>>) -> Seq<VersionRow> {
    rows.map_values(|r: VersionRow| clean_row(r, suffix))
}

/// All the rows of the tables, in order.
pub open spec fn flattened(tables: Seq<Seq<VersionRow>>) -> Seq<VersionRow>
    decreases tables.len(),
{
    if tables.len() == 0 {
        Seq::empty()
    } else {
        flattened(tables.drop_last()) + tables.last()
    }
}

/// The table that merging gives: the rows of the tables, cleaned, written one after the
/// other by upsert, so that a product named twice keeps its place and its last record.
pub open spec fn merged(tables: Seq<Seq<VersionRow>>, suffix: Option<Seq<char>>) -> Seq<VersionRow>
    decreases tables.len(),
{
    if tables.len() == 0 {
        Seq::empty()
    } else {
        upserted_all(merged(tables.drop_last(), suffix), cleaned_rows(tables.last(), suffix))
    }
}

/// The views of tables of records.
pub open spec fn table_views(tables: Seq<Vec<SoftwareVersion>>) -> Seq<Seq<VersionRow>> {
    tables.map_values(|t: Vec<SoftwareVersion>| version_rows(t@))
}

/// The merged table names each product once, and has a row for the product of every row
/// of every table that went in.
pub proof fn lemma_merged_keeps_every_product(
    tables: Seq<Seq<VersionRow>>,
    suffix: Option<Seq<char>>,
)
    ensures
        names_distinct(merged(tables, suffix)),
        forall|i: int, k: int|
            0 <= i < tables.len() && 0 <= k < tables[i].len() ==> holds(
                merged(tables, suffix),
                (#[trigger] tables[i][k]).name,
            ),
        merged(tables, suffix).len() <= flattened(tables).len(),
    decreases tables.len(),
{
    if tables.len() > 0 {
        let front = tables.drop_last();
        lemma_merged_keeps_every_product(front, suffix);
        let base = merged(front, suffix);
        let added = cleaned_rows(tables.last(), suffix);
        lemma_upserted_all(base, added);
        assert forall|i: int, k: int|
            0 <= i < tables.len() && 0 <= k < tables[i].len() implies holds(
            merged(tables, suffix),
            (#[trigger] tables[i][k]).name,
        ) by {
            if i < front.len() {
                assert(front[i] == tables[i]);
                assert(holds(base, front[i][k].name));
            } else {
                assert(added[k].name == tables.last()[k].name);
            }
        }
    }
}

/// Where no product is named twice across the tables, the merged table holds one row for
/// each row that went in, in order.
pub proof fn lemma_merged_of_distinct_products(
    tables: Seq<Seq<VersionRow>>,
    suffix: Option<Seq<char>>,
)
    requires
        names_distinct(flattened(tables)),
    ensures
        merged(tables, suffix) == cleaned_rows(flattened(tables), suffix),
        merged(tables, suffix).len() == flattened(tables).len(),
    decreases tables.len(),
{
    if tables.len() == 0 {
        assert(cleaned_rows(flattened(tables), suffix) =~= Seq::<VersionRow>::empty());
    } else {
        let front = tables.drop_last();
        let flat = flattened(tables);
        let head = flattened(front);
        assert forall|i: int, j: int| 0 <= i < j < head.len() implies (#[trigger] head[i]).name != (
        #[trigger] head[j]).name by {
            assert(head[i] == flat[i]);
            assert(head[j] == flat[j]);
        }
        lemma_merged_of_distinct_products(front, suffix);
        let base = cleaned_rows(head, suffix);
        let added = cleaned_rows(tables.last(), suffix);
        assert(base + added =~= cleaned_rows(flat, suffix));
        assert forall|i: int, j: int| 0 <= i < j < (base + added).len() implies (#[trigger] (base
            + added)[i]).name != (#[trigger] (base + added)[j]).name by {
            assert((base + added)[i].name == flat[i].name);
            assert((base + added)[j].name == flat[j].name);
        }
        lemma_upserted_all_fresh(base, added);
    }
}

/// Two sources that name different products merge to the same rows whichever comes first.
pub proof fn lemma_merge_order_is_free(
    first: Seq<VersionRow>,
    second: Seq<VersionRow>,
    suffix: Option<Seq<char>>,
)
    requires
        names_distinct(first + second),
    ensures
        merged(seq![first, second], suffix).to_multiset() == merged(
            seq![second, first],
            suffix,
        ).to_multiset(),
{
    broadcast use vstd::seq_lib::group_to_multiset_ensures;

    let forth = seq![first, second];
    let back = seq![second, first];
    assert(forth.drop_last() =~= seq![first]);
    assert(seq![first].drop_last() =~= Seq::<Seq<VersionRow>>::empty());
    assert(back.drop_last() =~= seq![second]);
    assert(seq![second].drop_last() =~= Seq::<Seq<VersionRow>>::empty());
    assert(flattened(Seq::<Seq<VersionRow>>::empty()) =~= Seq::<VersionRow>::empty());
    assert(seq![first].last() == first && seq![second].last() == second);
    assert(flattened(seq![first]) =~= first);
    assert(flattened(seq![second]) =~= second);
    assert(forth.last() == second && back.last() == first);
    assert(flattened(forth) =~= first + second);
    assert(flattened(back) =~= second + first);
    let both = first + second;
    let swapped = second + first;
    assert forall|i: int, j: int| 0 <= i < j < swapped.len() implies (#[trigger] swapped[i]).name != (
    #[trigger] swapped[j]).name by {
        let n = second.len() as int;
        let m = first.len() as int;
        if j < n {
            assert(both[m + i] == swapped[i] && both[m + j] == swapped[j]);
        } else if i < n {
            assert(both[m + i] == swapped[i] && both[j - n] == swapped[j]);
        } else {
            assert(both[i - n] == swapped[i] && both[j - n] == swapped[j]);
        }
    }
    lemma_merged_of_distinct_products(forth, suffix);
    lemma_merged_of_distinct_products(back, suffix);
    let a = cleaned_rows(first, suffix);
    let b = cleaned_rows(second, suffix);
    assert(cleaned_rows(both, suffix) =~= a + b);
    assert(cleaned_rows(swapped, suffix) =~= b + a);
    vstd::seq_lib::lemma_seq_union_to_multiset_commutative(a, b);
}

/// Taking a suffix off a text that does not begin with `v` leaves a text that does not.
pub proof fn lemma_stripped_has_no_leading_v(version: Seq<char>, suffix: Seq<char>)
    requires
        no_leading_v(version),
    ensures
        no_leading_v(without_suffix(version, suffix)),
{
}

/// The cleaning pass keeps records well formed.
pub proof fn lemma_cleaning_keeps_well_formed(row: VersionRow, suffix: Option<Seq<char>>)
    requires
        well_formed(row),
    ensures
        well_formed(clean_row(row, suffix)),
{
    if let Some(s) = suffix {
        lemma_stripped_has_no_leading_v(row.latest_version, s);
        if let Some(lts) = row.latest_lts_version {
            lemma_stripped_has_no_leading_v(lts, s);
        }
    }
}

/// The merging step of a run, with the suffix that its cleaning pass strips.
#[derive(Debug)]
pub struct Aggregator {
    pub strip_suffix: Option<String>,
}

impl Aggregator {
    /// An aggregator whose cleaning pass strips `strip_suffix`, if any.
    pub fn new(strip_suffix: Option<String>) -> (aggregator: Aggregator)
        ensures
            opt_view(aggregator.strip_suffix) == opt_view(strip_suffix),
    {
        Aggregator { strip_suffix }
    }

    /// Chooses between a version and what is left of it without the suffix: what is left,
    /// where that was read as a version.
    pub fn choose_cleaned(version: String, stripped: &str, parsed: &Option<SemVer>) -> (out:
        String)
        ensures
            out@ == if parsed is Some {
                stripped@
            } else {
                version@
            },
    {
        match parsed {
            Some(_) => String::from_str(stripped),
            None => version,
        }
    }

    /// Cleans one version.
    pub fn clean(&self, version: String) -> (out: String)
        ensures
            out@ == clean_version(version@, opt_view(self.strip_suffix)),
    {
        match &self.strip_suffix {
            Some(suffix) => {
                let stripped = String::from_str(strip_suffix(version.as_str(), suffix.as_str()));
                let parsed = parse_version(stripped.as_str());
                Self::choose_cleaned(version, stripped.as_str(), &parsed)
            },
            None => version,
        }
    }

    /// Cleans the latest versions of one record.
    pub fn clean_record(&self, record: SoftwareVersion) -> (out: SoftwareVersion)
        ensures
            out@ == clean_row(record@, opt_view(self.strip_suffix)),
    {
        let SoftwareVersion {
            name,
            current_version,
            latest_version,
            latest_lts_version,
            is_lts,
            eol_date,
            release_notes_url,
            cve_count,
        } = record;
        let latest_lts_version = match latest_lts_version {
            Some(v) => Some(self.clean(v)),
            None => None,
        };
        SoftwareVersion {
            name,
            current_version,
            latest_version: self.clean(latest_version),
            latest_lts_version,
            is_lts,
            eol_date,
            release_notes_url,
            cve_count,
        }
    }

    /// Merges the tables of the sources that succeeded. Without tables the result is
    /// empty: a run without a success writes nothing.
    pub fn merge(&self, tables: &Vec<Vec<SoftwareVersion>>) -> (out: VersionTable)
        ensures
            out.wf(),
            out@ == merged(table_views(tables@), opt_view(self.strip_suffix)),
    {
        let ghost all = table_views(tables@);
        let ghost suffix = opt_view(self.strip_suffix);
        let mut out = VersionTable::new();
        let mut i: usize = 0;
        assert(all.take(0) =~= Seq::<Seq<VersionRow>>::empty());
        while i < tables.len()
            invariant
                i <= tables.len(),
                all == table_views(tables@),
                suffix == opt_view(self.strip_suffix),
                out.wf(),
                out@ == merged(all.take(i as int), suffix),
            decreases tables.len() - i,
        {
            assert(all.take(i + 1).drop_last() =~= all.take(i as int));
            assert(all.take(i + 1).last() == version_rows(tables@[i as int]@));
            let table = &tables[i];
            let ghost base = out@;
            let ghost added = cleaned_rows(version_rows(table@), suffix);
            let mut k: usize = 0;
            assert(added.take(0) =~= Seq::<VersionRow>::empty());
            while k < table.len()
                invariant
                    k <= table.len(),
                    suffix == opt_view(self.strip_suffix),
                    added == cleaned_rows(version_rows(table@), suffix),
                    out.wf(),
                    out@ == upserted_all(base, added.take(k as int)),
                decreases table.len() - k,
            {
                assert(added.take(k + 1).drop_last() =~= added.take(k as int));
                assert(added.take(k + 1).last() == clean_row(table@[k as int]@, suffix));
                out.upsert(self.clean_record(table[k].clone()));
                k += 1;
            }
            assert(added.take(table.len() as int) =~= added);
            i += 1;
        }
        assert(all.take(tables.len() as int) =~= all);
        out
    }
}

} // verus!
