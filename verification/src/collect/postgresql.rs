//! PostgreSQL: the versioning policy page.

use vstd::prelude::*;
use crate::collect::github::table_or_not_found;
use crate::date::{date_parse, parse_date};
use crate::domain::{cycles_outcome, rows, CycleRow, ProductCycle};
use crate::error::{Error, Failure};
use crate::html::{html_scope_rows, select_scope_rows, table_view, tables_view};
use crate::seqs::filter_mapped;
use crate::text::{trim, trimmed_space, views};

verus! {

pub const POSTGRESQL_VERSIONING_URL: &'static str =
    "https://www.postgresql.org/support/versioning/";

/// The form in which the page writes a day.
pub const POSTGRESQL_DAY_FORMAT: &'static str = "%B %e, %Y";

/// The cycle of a table row with at least four cells, whose third and fourth cell read as
/// the days `first` and `last`: the version is the first cell. A row with fewer cells, or
/// with a day that does not read, gives none.
pub open spec fn policy_row(cells: Seq<Seq<char>>, first: Option<i32>, last: Option<i32>)
    -> Option<CycleRow> {
    if cells.len() >= 4 && first is Some && last is Some {
        Some(
            CycleRow {
                name: trimmed_space(cells[0]),
                release_date: first,
                eol_date: last,
                lts: false,
            },
        )
    } else {
        None
    }
}

/// The cycle of one row of the policy table.
pub open spec fn versioning_row(cells: Seq<Seq<char>>) -> Option<CycleRow> {
    if cells.len() >= 4 {
        policy_row(
            cells,
            date_parse(trimmed_space(cells[2]), POSTGRESQL_DAY_FORMAT@),
            date_parse(trimmed_space(cells[3]), POSTGRESQL_DAY_FORMAT@),
        )
    } else {
        None
    }
}

/// The cycles of the rows of the policy table, or `NotFound` where there is none.
pub open spec fn postgresql_cycles(table: Seq<Seq<Seq<char>>>) -> Result<Seq<CycleRow>, Failure> {
    table_or_not_found(filter_mapped(table, |cells: Seq<Seq<char>>| versioning_row(cells)))
}

/// The first of the tables of a page; a table without rows where the page has none.
pub open spec fn first_table(tables: Seq<Seq<Seq<Seq<char>>>>) -> Seq<Seq<Seq<char>>> {
    if tables.len() > 0 {
        tables[0]
    } else {
        Seq::empty()
    }
}

/// The cycles of a page: those of its first table.
pub open spec fn page_cycles(tables: Seq<Seq<Seq<Seq<char>>>>) -> Result<Seq<CycleRow>, Failure> {
    postgresql_cycles(first_table(tables))
}

/// Collects the supported versions of PostgreSQL.
#[derive(Debug)]
pub struct PostgresqlCollector {
    name: String,
}

impl PostgresqlCollector {
    /// The name of the product that this collector reports under.
    pub closed spec fn label(&self) -> Seq<char> {
        self.name@
    }

    pub fn new(name: &str) -> (collector: Self)
        ensures
            collector.label() == name@,
    {
        Self { name: String::from_str(name) }
    }

    pub fn name(&self) -> (name: &str)
        ensures
            name@ == self.label(),
    {
        self.name.as_str()
    }

    /// The page to fetch.
    pub fn url(&self) -> (url: &'static str)
        ensures
            url@ == POSTGRESQL_VERSIONING_URL@,
    {
        POSTGRESQL_VERSIONING_URL
    }

    /// Makes the cycle of one table row from its cells and the days that its third and
    /// fourth cell read as.
    pub fn cycle_of_row(cells: &Vec<String>, first: Option<i32>, last: Option<i32>) -> (cycle:
        Option<ProductCycle>)
        ensures
            cycle is Some == policy_row(views(cells@), first, last) is Some,
            cycle matches Some(c) ==> Some(c@) == policy_row(views(cells@), first, last),
    {
        if cells.len() >= 4 && first.is_some() && last.is_some() {
            Some(
                ProductCycle {
                    name: String::from_str(trim(cells[0].as_str())),
                    release_date: first,
                    eol_date: last,
                    lts: false,
                },
            )
        } else {
            None
        }
    }

    /// Reads the cycles off the rows of the policy table.
    pub fn cycles(table: &Vec<Vec<String>>) -> (out: Result<Vec<ProductCycle>, Error>)
        ensures
            cycles_outcome(out) == postgresql_cycles(table_view(table@)),
    {
        let ghost all = table_view(table@);
        let ghost f = |cells: Seq<Seq<char>>| versioning_row(cells);
        let mut cycles: Vec<ProductCycle> = Vec::new();
        let mut i: usize = 0;
        assert(all.take(0) =~= Seq::<Seq<Seq<char>>>::empty());
        assert(rows(cycles@) =~= Seq::<CycleRow>::empty());
        while i < table.len()
            invariant
                i <= table.len(),
                all == table_view(table@),
                f == |cells: Seq<Seq<char>>| versioning_row(cells),
                rows(cycles@) == filter_mapped(all.take(i as int), f),
            decreases table.len() - i,
        {
            assert(all.take(i + 1).drop_last() =~= all.take(i as int));
            assert(all.take(i + 1).last() == views(table@[i as int]@));
            let cells = &table[i];
            if cells.len() >= 4 {
                let first = parse_date(trim(cells[2].as_str()), POSTGRESQL_DAY_FORMAT);
                let last = parse_date(trim(cells[3].as_str()), POSTGRESQL_DAY_FORMAT);
                match Self::cycle_of_row(cells, first, last) {
                    Some(cycle) => {
                        let ghost before = rows(cycles@);
                        cycles.push(cycle);
                        assert(rows(cycles@) =~= before.push(cycle@));
                    },
                    None => {},
                }
            }
            i += 1;
        }
        assert(all.take(table.len() as int) =~= all);
        if cycles.len() == 0 {
            Err(Error::NotFound)
        } else {
            Ok(cycles)
        }
    }

    /// Reads the cycles off the tables of the versioning page: those of the first table.
    pub fn cycles_of_page(tables: &Vec<Vec<Vec<String>>>) -> (out: Result<Vec<ProductCycle>, Error>)
        ensures
            cycles_outcome(out) == page_cycles(tables_view(tables@)),
    {
        if tables.len() > 0 {
            assert(tables_view(tables@)[0] == table_view(tables@[0]@));
            Self::cycles(&tables[0])
        } else {
            Err(Error::NotFound)
        }
    }

    /// Reads the cycles off the versioning page.
    pub fn parse(html: &str) -> (out: Result<Vec<ProductCycle>, Error>)
        ensures
            cycles_outcome(out) == page_cycles(
                html_scope_rows(html@, "table"@, "tbody > tr"@, "td"@),
            ),
    {
        let tables = select_scope_rows(html, "table", "tbody > tr", "td");
        Self::cycles_of_page(&tables)
    }
}

} // verus!
