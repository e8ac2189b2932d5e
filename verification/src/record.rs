//! The record of one product, made from what its source reported.

use vstd::prelude::*;
use crate::config::{CleaningRules, VersionCleaning};
use crate::domain::{rows, CycleRow, ProductCycle, SoftwareVersion, VersionRow};
use crate::normalize::{
    candidate_rows, deduplicate, deduplicated, fragment_rows, latest, lemma_deduplicated,
    lemma_latest_is_highest, lemma_normalized_is_canonical, no_leading_v, normalize_all,
    normalize_version, normalized_all, normalized_version, pick_latest, CandidateRecord,
    CandidateRow, CanonicalFragment, FragmentRow,
};
use crate::semver::is_semver;

verus! {

/// The candidate that a cycle of a product stands for.
pub open spec fn candidate_of(product: Seq<char>, cycle: CycleRow) -> CandidateRow {
    CandidateRow {
        name: product,
        raw_version: cycle.name,
        release_date: cycle.release_date,
        end_of_life_date: cycle.eol_date,
        is_long_term_support: cycle.lts,
        source_url: None,
    }
}

/// The candidates that the cycles of a product stand for.
pub open spec fn candidates_of(product: Seq<char>, cycles: Seq<CycleRow>) -> Seq<CandidateRow> {
    cycles.map_values(|c: CycleRow| candidate_of(product, c))
}

/// The rows that are long-term-support releases, in order.
pub open spec fn lts_only(rows: Seq<FragmentRow>) -> Seq<FragmentRow> {
    rows.filter(|r: FragmentRow| r.is_long_term_support)
}

/// The version of a row, if there is a row.
pub open spec fn version_of(row: Option<FragmentRow>) -> Option<Seq<char>> {
    match row {
        Some(r) => Some(r.version),
        None => None,
    }
}

/// The record of a product whose releases are `rows`: its latest release, and the latest
/// among its long-term-support releases. A product without a release has no record.
pub open spec fn summary(product: Seq<char>, rows: Seq<FragmentRow>) -> Option<VersionRow> {
    match latest(rows) {
        Some(best) => Some(
            VersionRow {
                name: product,
                current_version: Seq::empty(),
                latest_version: best.version,
                latest_lts_version: version_of(latest(lts_only(rows))),
                is_lts: best.is_long_term_support,
                eol_date: best.end_of_life_date,
                release_notes_url: best.source_url,
                cve_count: 0,
            },
        ),
        None => None,
    }
}

/// The record that the cycles of a product give under its cleaning rules: every cycle is
/// normalized, equal versions collapse, and the result is summarized.
pub open spec fn canonical(product: Seq<char>, cycles: Seq<CycleRow>, rules: CleaningRules)
    -> Option<VersionRow> {
    summary(product, deduplicated(normalized_all(candidates_of(product, cycles), rules)))
}

/// What holds of every record of a run: its latest version, and its latest long-term-support
/// version if it has one, are semantic versions without a leading `v`, and its count of
/// vulnerabilities is not negative.
pub open spec fn well_formed(row: VersionRow) -> bool {
    &&& is_semver(row.latest_version) && no_leading_v(row.latest_version)
    &&& row.latest_lts_version matches Some(lts) ==> is_semver(lts) && no_leading_v(lts)
    &&& row.cve_count >= 0
}

/// Whether every row has a canonical version.
pub open spec fn all_canonical(rows: Seq<FragmentRow>) -> bool {
    forall|i: int|
        0 <= i < rows.len() ==> is_semver((#[trigger] rows[i]).version) && no_leading_v(
            rows[i].version,
        )
}

/// A record with its versions made canonical under the rules of its target, and a negative
/// count of vulnerabilities set to none. A record whose latest version is no version under
/// the rules has no canonical form; a long-term-support version that is none is left out.
pub open spec fn canonical_row(row: VersionRow, rules: CleaningRules) -> Option<VersionRow> {
    match normalized_version(row.latest_version, rules) {
        Some(latest) => Some(
            VersionRow {
                latest_version: latest,
                latest_lts_version: match row.latest_lts_version {
                    Some(lts) => normalized_version(lts, rules),
                    None => None,
                },
                cve_count: if row.cve_count < 0 {
                    0
                } else {
                    row.cve_count
                },
                ..row
            },
        ),
        None => None,
    }
}

/// A record, if there is one, as plain values.
pub open spec fn record_view(record: Option<SoftwareVersion>) -> Option<VersionRow> {
    match record {
        Some(r) => Some(r@),
        None => None,
    }
}

/// Every fragment that normalization gives has a canonical version.
pub proof fn lemma_normalized_all_canonical(candidates: Seq<CandidateRow>, rules: CleaningRules)
    ensures
        all_canonical(normalized_all(candidates, rules)),
    decreases candidates.len(),
{
    if candidates.len() > 0 {
        lemma_normalized_all_canonical(candidates.drop_last(), rules);
        lemma_normalized_is_canonical(candidates.last().raw_version, rules);
    }
}

/// The latest of rows with canonical versions has a canonical version.
pub proof fn lemma_latest_canonical(rows: Seq<FragmentRow>)
    requires
        all_canonical(rows),
    ensures
        latest(rows) matches Some(best) ==> is_semver(best.version) && no_leading_v(best.version),
{
    lemma_latest_is_highest(rows);
    if let Some(best) = latest(rows) {
        let k = choose|k: int| 0 <= k < rows.len() && rows[k] == best;
        assert(is_semver(rows[k].version));
    }
}

/// The record that the cycles of a product give is well formed and carries the name of the
/// product.
pub proof fn lemma_canonical_is_well_formed(
    product: Seq<char>,
    cycles: Seq<CycleRow>,
    rules: CleaningRules,
)
    ensures
        canonical(product, cycles, rules) matches Some(record) ==> well_formed(record)
            && record.name == product,
{
    let all = normalized_all(candidates_of(product, cycles), rules);
    lemma_normalized_all_canonical(candidates_of(product, cycles), rules);
    lemma_deduplicated(all);
    let unique = deduplicated(all);
    assert forall|i: int| 0 <= i < unique.len() implies is_semver((#[trigger] unique[i]).version)
        && no_leading_v(unique[i].version) by {
        assert(all.contains(unique[i]));
        let k = choose|k: int| 0 <= k < all.len() && all[k] == unique[i];
        assert(is_semver(all[k].version));
    }
    lemma_latest_canonical(unique);
    let lts = lts_only(unique);
    assert forall|i: int| 0 <= i < lts.len() implies is_semver((#[trigger] lts[i]).version)
        && no_leading_v(lts[i].version) by {
        assert(lts.contains(lts[i]));
        unique.lemma_filter_contains_rev(|r: FragmentRow| r.is_long_term_support, lts[i]);
        let k = choose|k: int| 0 <= k < unique.len() && unique[k] == lts[i];
        assert(is_semver(unique[k].version));
    }
    lemma_latest_canonical(lts);
}

/// The canonical form of a record is well formed and carries the same name.
pub proof fn lemma_canonical_row(row: VersionRow, rules: CleaningRules)
    ensures
        canonical_row(row, rules) matches Some(out) ==> well_formed(out) && out.name == row.name,
{
    lemma_normalized_is_canonical(row.latest_version, rules);
    if let Some(lts) = row.latest_lts_version {
        lemma_normalized_is_canonical(lts, rules);
    }
}

/// Wraps the cycles of a product as candidates.
pub fn candidates(product: &str, cycles: &Vec<ProductCycle>) -> (out: Vec<CandidateRecord>)
    ensures
        candidate_rows(out@) == candidates_of(product@, rows(cycles@)),
{
    let mut out: Vec<CandidateRecord> = Vec::new();
    let mut i: usize = 0;
    while i < cycles.len()
        invariant
            i <= cycles.len(),
            out@.len() == i,
            forall|j: int| 0 <= j < i ==> (#[trigger] out@[j])@ == candidate_of(product@, cycles@[j]@),
        decreases cycles.len() - i,
    {
        let cycle = &cycles[i];
        out.push(
            CandidateRecord {
                name: String::from_str(product),
                raw_version: cycle.name.clone(),
                release_date: cycle.release_date,
                end_of_life_date: cycle.eol_date,
                is_long_term_support: cycle.lts,
                source_url: None,
            },
        );
        i += 1;
    }
    assert(candidate_rows(out@) =~= candidates_of(product@, rows(cycles@)));
    out
}

/// Keeps the long-term-support releases.
pub fn keep_lts(fragments: &Vec<CanonicalFragment>) -> (out: Vec<CanonicalFragment>)
    ensures
        fragment_rows(out@) == lts_only(fragment_rows(fragments@)),
{
    let mut out: Vec<CanonicalFragment> = Vec::new();
    let mut i: usize = 0;
    let ghost all = fragment_rows(fragments@);
    let ghost keep = |r: FragmentRow| r.is_long_term_support;
    assert(all.take(0) =~= Seq::<FragmentRow>::empty());
    while i < fragments.len()
        invariant
            i <= fragments.len(),
            all == fragment_rows(fragments@),
            keep == |r: FragmentRow| r.is_long_term_support,
            fragment_rows(out@) == all.take(i as int).filter(keep),
        decreases fragments.len() - i,
    {
        assert(all.take(i + 1).drop_last() =~= all.take(i as int));
        assert(all.take(i + 1).last() == fragments@[i as int]@);
        reveal(Seq::filter);
        if fragments[i].is_long_term_support {
            let ghost before = fragment_rows(out@);
            out.push(fragments[i].clone());
            assert(fragment_rows(out@) =~= before.push(fragments@[i as int]@));
        }
        i += 1;
    }
    assert(all.take(fragments.len() as int) =~= all);
    out
}

/// Summarizes the releases of a product into its record.
pub fn summarize(product: &str, fragments: &Vec<CanonicalFragment>) -> (record: Option<
    SoftwareVersion,
>)
    ensures
        record_view(record) == summary(product@, fragment_rows(fragments@)),
{
    match pick_latest(fragments) {
        Some(best) => {
            let lts = keep_lts(fragments);
            let latest_lts_version = match pick_latest(&lts) {
                Some(l) => Some(l.version),
                None => None,
            };
            Some(
                SoftwareVersion {
                    name: String::from_str(product),
                    current_version: String::new(),
                    latest_version: best.version,
                    latest_lts_version,
                    is_lts: best.is_long_term_support,
                    eol_date: best.end_of_life_date,
                    release_notes_url: best.source_url,
                    cve_count: 0,
                },
            )
        },
        None => None,
    }
}

/// Makes the record of a product from the cycles that its source reported.
pub fn canonical_record(
    product: &str,
    cycles: &Vec<ProductCycle>,
    rules: &VersionCleaning,
) -> (record: Option<SoftwareVersion>)
    ensures
        record_view(record) == canonical(product@, rows(cycles@), rules@),
        record matches Some(r) ==> well_formed(r@) && r@.name == product@,
{
    proof {
        lemma_canonical_is_well_formed(product@, rows(cycles@), rules@);
    }
    let wrapped = candidates(product, cycles);
    let fragments = normalize_all(&wrapped, rules);
    let unique = deduplicate(&fragments);
    summarize(product, &unique)
}

/// Makes the versions of a record canonical under the rules of its target.
pub fn canonicalize(record: SoftwareVersion, rules: &VersionCleaning) -> (out: Option<
    SoftwareVersion,
>)
    ensures
        record_view(out) == canonical_row(record@, rules@),
        out matches Some(r) ==> well_formed(r@) && r@.name == record@.name,
{
    proof {
        lemma_canonical_row(record@, rules@);
    }
    let SoftwareVersion {
        name,
        current_version,
        latest_version,
        latest_lts_version,
        is_lts,
        eol_date,
        release_notes_url,
        cve_count,
    } = record;
    match normalize_version(latest_version.as_str(), rules) {
        Some(latest) => {
            let latest_lts_version = match latest_lts_version {
                Some(lts) => normalize_version(lts.as_str(), rules),
                None => None,
            };
            Some(
                SoftwareVersion {
                    name,
                    current_version,
                    latest_version: latest,
                    latest_lts_version,
                    is_lts,
                    eol_date,
                    release_notes_url,
                    cve_count: if cve_count < 0 {
                        0
                    } else {
                        cve_count
                    },
                },
            )
        },
        None => None,
    }
}

} // verus!
