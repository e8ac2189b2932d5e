//! MongoDB: the lifecycle page of the vendor.

use vstd::prelude::*;
use crate::date::{date_parse, parse_date};
use crate::domain::{cycles_outcome, rows, CycleRow, ProductCycle};
use crate::error::{Error, Failure};
use crate::html::{html_section_rows, section_rows_view, select_section_rows, table_view};
use crate::seqs::{filter_mapped, first_where, lemma_first_where, lemma_first_where_is};
use crate::text::{remove_all, removed, trim, trimmed_space, views};

verus! {

pub const MONGODB_LIFECYCLE_URL: &'static str =
    "https://www.mongodb.com/legal/support-policy/lifecycles";

/// A section of the page as plain values: its heading and the rows of the table after it.
pub type Section = (Seq<char>, Option<Seq<Seq<Seq<char>>>>);

/// Whether a section is the one on the server: that is its heading, and a table follows.
pub open spec fn is_server_section(section: Section) -> bool {
    trimmed_space(section.0) == "MongoDB Server"@ && section.1 is Some
}

/// The rows of a table after its header row.
pub open spec fn body_rows(table: Seq<Seq<Seq<char>>>) -> Seq<Seq<Seq<char>>> {
    if table.len() == 0 {
        table
    } else {
        table.skip(1)
    }
}

/// The cycle of one row whose end-of-life cell reads as `eol`: the version is the first
/// cell without the product's name. A row with fewer than three cells, or without a
/// date, gives none.
pub open spec fn lifecycle_row(cells: Seq<Seq<char>>, eol: Option<i32>) -> Option<CycleRow> {
    if cells.len() >= 3 && eol is Some {
        Some(
            CycleRow {
                name: removed(trimmed_space(cells[0]), "MongoDB "@),
                release_date: None,
                eol_date: eol,
                lts: false,
            },
        )
    } else {
        None
    }
}

/// The cycle of one row of the lifecycle table.
pub open spec fn server_row(cells: Seq<Seq<char>>) -> Option<CycleRow> {
    if cells.len() >= 3 {
        lifecycle_row(cells, date_parse(trimmed_space(cells[2]), "%B %d, %Y"@))
    } else {
        None
    }
}

/// The cycles of the page: those of the rows of the server table, or `NotFound` where the
/// page has no such table or the table gives no cycle.
pub open spec fn server_cycles(sections: Seq<Section>) -> Result<Seq<CycleRow>, Failure> {
    match first_where(sections, |s: Section| is_server_section(s)) {
        Some(i) => {
            let cycles = filter_mapped(
                body_rows(sections[i].1->0),
                |cells: Seq<Seq<char>>| server_row(cells),
            );
            if cycles.len() == 0 {
                Err(Failure::NotFound)
            } else {
                Ok(cycles)
            }
        },
        None => Err(Failure::NotFound),
    }
}

/// Collects the supported versions of MongoDB with their end-of-life dates.
#[derive(Debug)]
pub struct MongoDbCollector {
    name: String,
}

impl MongoDbCollector {
    /// The name of the product that this collector reports under.
    pub closed spec fn label(&self) -> Seq<char> {
        self.name@
    }

    pub fn new(name: &str) -> (collector: Self)
        ensures
            collector.label() == name@,
    {
        Self { name: String::from_str(name) }
    }

    pub fn name(&self) -> (name: &str)
        ensures
            name@ == self.label(),
    {
        self.name.as_str()
    }

    /// The page to fetch.
    pub fn url(&self) -> (url: &'static str)
        ensures
            url@ == MONGODB_LIFECYCLE_URL@,
    {
        MONGODB_LIFECYCLE_URL
    }

    /// Makes the cycle of one table row from its cells and the date that its end-of-life
    /// cell reads as.
    pub fn cycle_of_row(cells: &Vec<String>, eol: Option<i32>) -> (cycle: Option<ProductCycle>)
        ensures
            cycle is Some == lifecycle_row(views(cells@), eol) is Some,
            cycle matches Some(c) ==> Some(c@) == lifecycle_row(views(cells@), eol),
    {
        if cells.len() >= 3 && eol.is_some() {
            let version = trim(cells[0].as_str());
            Some(
                ProductCycle {
                    name: remove_all(version, "MongoDB "),
                    release_date: None,
                    eol_date: eol,
                    lts: false,
                },
            )
        } else {
            None
        }
    }

    /// Finds the section on the server among the sections of the page.
    pub fn server_section(sections: &Vec<(String, Option<Vec<Vec<String>>>)>) -> (place: Option<
        usize,
    >)
        ensures
            place is Some == first_where(
                section_rows_view(sections@),
                |s: Section| is_server_section(s),
            ) is Some,
            place matches Some(i) ==> first_where(
                section_rows_view(sections@),
                |s: Section| is_server_section(s),
            ) == Some(i as int),
    {
        let ghost all = section_rows_view(sections@);
        let ghost pred = |s: Section| is_server_section(s);
        let mut i: usize = 0;
        while i < sections.len()
            invariant
                i <= sections.len(),
                all == section_rows_view(sections@),
                pred == |s: Section| is_server_section(s),
                forall|j: int| 0 <= j < i ==> !pred(#[trigger] all[j]),
            decreases sections.len() - i,
        {
            let heading = trim(sections[i].0.as_str());
            if crate::text::text_eq(heading, "MongoDB Server") && sections[i].1.is_some() {
                assert(pred(all[i as int]));
                proof {
                    lemma_first_where_is(all, pred, i as int);
                }
                return Some(i);
            }
            assert(!pred(all[i as int]));
            i += 1;
        }
        proof {
            lemma_first_where(all, pred);
            if first_where(all, pred) is Some {
                let k = first_where(all, pred)->0;
                assert(pred(all[k]));
            }
        }
        None
    }

    /// Reads the cycles off the rows of the server table, its header row left out.
    pub fn table_cycles(table: &Vec<Vec<String>>) -> (cycles: Vec<ProductCycle>)
        ensures
            rows(cycles@) == filter_mapped(
                body_rows(table_view(table@)),
                |cells: Seq<Seq<char>>| server_row(cells),
            ),
    {
        let ghost body = body_rows(table_view(table@));
        let ghost f = |cells: Seq<Seq<char>>| server_row(cells);
        let mut cycles: Vec<ProductCycle> = Vec::new();
        assert(body.take(0) =~= Seq::<Seq<Seq<char>>>::empty());
        if table.len() == 0 {
            assert(body =~= body.take(0));
            return cycles;
        }
        let mut k: usize = 1;
        while k < table.len()
            invariant
                1 <= k <= table.len(),
                body == body_rows(table_view(table@)),
                f == |cells: Seq<Seq<char>>| server_row(cells),
                rows(cycles@) == filter_mapped(body.take(k - 1), f),
            decreases table.len() - k,
        {
            assert(body.take(k as int).drop_last() =~= body.take(k - 1));
            assert(body.take(k as int).last() == views(table@[k as int]@));
            let cells = &table[k];
            if cells.len() >= 3 {
                let eol = parse_date(trim(cells[2].as_str()), "%B %d, %Y");
                match Self::cycle_of_row(cells, eol) {
                    Some(cycle) => {
                        let ghost before = rows(cycles@);
                        cycles.push(cycle);
                        assert(rows(cycles@) =~= before.push(cycle@));
                    },
                    None => {},
                }
            }
            k += 1;
        }
        assert(body.take(k - 1) =~= body);
        cycles
    }

    /// Reads the cycles off the sections of the page.
    pub fn cycles(sections: &Vec<(String, Option<Vec<Vec<String>>>)>) -> (out: Result<
        Vec<ProductCycle>,
        Error,
    >)
        ensures
            cycles_outcome(out) == server_cycles(section_rows_view(sections@)),
    {
        proof {
            lemma_first_where(section_rows_view(sections@), |s: Section| is_server_section(s));
        }
        match Self::server_section(sections) {
            Some(place) => match &sections[place].1 {
                Some(table) => {
                    let cycles = Self::table_cycles(table);
                    if cycles.len() == 0 {
                        Err(Error::NotFound)
                    } else {
                        Ok(cycles)
                    }
                },
                None => Err(Error::NotFound),
            },
            None => Err(Error::NotFound),
        }
    }

    /// Reads the cycles off the lifecycle page.
    pub fn parse(html: &str) -> (out: Result<Vec<ProductCycle>, Error>)
        ensures
            cycles_outcome(out) == server_cycles(
                html_section_rows(html@, "h3"@, "tr"@, "td"@),
            ),
    {
        let sections = select_section_rows(html, "h3", "tr", "td");
        Self::cycles(&sections)
    }
}

} // verus!
