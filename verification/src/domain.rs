//! The records that flow through a collection run.

use vstd::prelude::*;
use crate::error::{Error, Failure};

verus! {

/// One observed release of a product, as a source reports it.
///
/// Dates are counted in days since 1970-01-01.
#[derive(Debug, PartialEq, Eq)]
pub struct ProductCycle {
    pub name: String,
    pub release_date: Option<i32>,
    pub eol_date: Option<i32>,
    pub lts: bool,
}

/// What a [`ProductCycle`] holds, as plain values.
pub struct CycleRow {
    pub name: Seq<char>,
    pub release_date: Option<i32>,
    pub eol_date: Option<i32>,
    pub lts: bool,
}

impl View for ProductCycle {
    type V = CycleRow;

    open spec fn view(&self) -> CycleRow {
        CycleRow {
            name: self.name@,
            release_date: self.release_date,
            eol_date: self.eol_date,
            lts: self.lts,
        }
    }
}

impl Clone for ProductCycle {
    fn clone(&self) -> (copy: Self)
        ensures
            copy@ == self@,
    {
        ProductCycle {
            name: self.name.clone(),
            release_date: self.release_date,
            eol_date: self.eol_date,
            lts: self.lts,
        }
    }
}

impl ProductCycle {
    /// A cycle of which only the version is known.
    pub fn bare(name: String) -> (cycle: ProductCycle)
        ensures
            cycle@ == bare_row(name@),
    {
        ProductCycle { name, release_date: None, eol_date: None, lts: false }
    }
}

/// The row of a cycle of which only the version is known.
pub open spec fn bare_row(name: Seq<char>) -> CycleRow {
    CycleRow { name, release_date: None, eol_date: None, lts: false }
}

/// The rows of a table of cycles.
pub open spec fn rows(cycles: Seq<ProductCycle>) -> Seq<CycleRow> {
    cycles.map_values(|c: ProductCycle| c@)
}

/// What a collector of cycles gave, as plain values.
pub open spec fn cycles_outcome(out: Result<Vec<ProductCycle>, Error>) -> Result<
    Seq<CycleRow>,
    Failure,
> {
    match out {
        Ok(table) => Ok(rows(table@)),
        Err(e) => Err(e@),
    }
}

/// The rows of cycles of which only the versions are known.
pub open spec fn bare_rows(names: Seq<Seq<char>>) -> Seq<CycleRow> {
    names.map_values(|n: Seq<char>| bare_row(n))
}

/// Turns a list of versions into cycles of which nothing else is known.
pub fn bare_cycles(names: Vec<String>) -> (cycles: Vec<ProductCycle>)
    ensures
        rows(cycles@) == bare_rows(crate::text::views(names@)),
{
    let mut cycles: Vec<ProductCycle> = Vec::new();
    let mut i: usize = 0;
    while i < names.len()
        invariant
            i <= names.len(),
            cycles@.len() == i,
            forall|j: int| 0 <= j < i ==> (#[trigger] cycles@[j])@ == bare_row(names@[j]@),
        decreases names.len() - i,
    {
        cycles.push(ProductCycle::bare(names[i].clone()));
        i += 1;
    }
    assert(rows(cycles@) =~= bare_rows(crate::text::views(names@)));
    cycles
}

/// The storage-ready record of one product.
///
/// `eol_date` is counted in days since 1970-01-01.
#[derive(Debug, PartialEq, Eq)]
pub struct SoftwareVersion {
    pub name: String,
    pub current_version: String,
    pub latest_version: String,
    pub latest_lts_version: Option<String>,
    pub is_lts: bool,
    pub eol_date: Option<i32>,
    pub release_notes_url: Option<String>,
    pub cve_count: i32,
}

/// What a [`SoftwareVersion`] holds, as plain values.
pub struct VersionRow {
    pub name: Seq<char>,
    pub current_version: Seq<char>,
    pub latest_version: Seq<char>,
    pub latest_lts_version: Option<Seq<char>>,
    pub is_lts: bool,
    pub eol_date: Option<i32>,
    pub release_notes_url: Option<Seq<char>>,
    pub cve_count: i32,
}

/// The view of an optional string.
pub open spec fn opt_view(text: Option<String>) -> Option<Seq<char>> {
    match text {
        Some(t) => Some(t@),
        None => None,
    }
}

impl View for SoftwareVersion {
    type V = VersionRow;

    open spec fn view(&self) -> VersionRow {
        VersionRow {
            name: self.name@,
            current_version: self.current_version@,
            latest_version: self.latest_version@,
            latest_lts_version: opt_view(self.latest_lts_version),
            is_lts: self.is_lts,
            eol_date: self.eol_date,
            release_notes_url: opt_view(self.release_notes_url),
            cve_count: self.cve_count,
        }
    }
}

/// Copies an optional string.
pub fn clone_opt(text: &Option<String>) -> (copy: Option<String>)
    ensures
        opt_view(copy) == opt_view(*text),
{
    match text {
        Some(t) => Some(t.clone()),
        None => None,
    }
}

impl Clone for SoftwareVersion {
    fn clone(&self) -> (copy: Self)
        ensures
            copy@ == self@,
    {
        SoftwareVersion {
            name: self.name.clone(),
            current_version: self.current_version.clone(),
            latest_version: self.latest_version.clone(),
            latest_lts_version: clone_opt(&self.latest_lts_version),
            is_lts: self.is_lts,
            eol_date: self.eol_date,
            release_notes_url: clone_opt(&self.release_notes_url),
            cve_count: self.cve_count,
        }
    }
}

/// The rows of a table of records.
pub open spec fn version_rows(records: Seq<SoftwareVersion>) -> Seq<VersionRow> {
    records.map_values(|r: SoftwareVersion| r@)
}

} // verus!
