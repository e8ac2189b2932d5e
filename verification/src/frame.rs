//! Tables of cycles as `polars` data frames.
//!
//! A frame of cycles has four columns: `name` (strings), `release_date` and `eol_date`
//! (32-bit integers, days since 1970-01-01, null where unknown) and `lts` (booleans).

use vstd::prelude::*;
use crate::domain::{cycles_outcome, rows, CycleRow, ProductCycle};
use crate::error::{Error, Failure};

verus! {

/// `polars::prelude::DataFrame`, carried through as it is; nothing is known of what is
/// inside but what [`frame_conforms`] and [`frame_rows`] name.
#[verifier::external_type_specification]
#[verifier::external_body]
pub struct ExDataFrame(polars::prelude::DataFrame);

/// `polars::prelude::PolarsError`, carried through as it is.
#[verifier::external_type_specification]
#[verifier::external_body]
pub struct ExPolarsError(polars::prelude::PolarsError);

/// `polars::prelude::Column`, which the data frame is made of; declared only because the
/// frame cannot be declared without it.
#[verifier::external_type_specification]
#[verifier::external_body]
pub struct ExColumn(polars::prelude::Column);

/// The cells of one row of a frame of cycles; `None` is a null.
pub type Cells = (Option<Seq<char>>, Option<i32>, Option<i32>, Option<bool>);

/// Whether a frame has the four columns of a frame of cycles, each of its type.
pub uninterp spec fn frame_conforms(frame: polars::prelude::DataFrame) -> bool;

/// The rows of a frame that conforms: the cells of its four columns, row by row.
pub uninterp spec fn frame_rows(frame: polars::prelude::DataFrame) -> Seq<Cells>;

/// The four columns of a frame of cycles, cell by cell.
#[derive(Debug, PartialEq, Eq)]
pub struct FrameColumns {
    pub names: Vec<Option<String>>,
    pub release_dates: Vec<Option<i32>>,
    pub eol_dates: Vec<Option<i32>>,
    pub lts: Vec<Option<bool>>,
}

impl FrameColumns {
    /// Whether the four columns are equally long.
    pub open spec fn aligned(&self) -> bool {
        self.release_dates@.len() == self.names@.len() && self.eol_dates@.len()
            == self.names@.len() && self.lts@.len() == self.names@.len()
    }

    /// The rows that the columns make up.
    pub open spec fn cells(&self) -> Seq<Cells> {
        Seq::new(
            self.names@.len(),
            |i: int|
                (
                    crate::domain::opt_view(self.names@[i]),
                    self.release_dates@[i],
                    self.eol_dates@[i],
                    self.lts@[i],
                ),
        )
    }
}

/// The cells that a cycle fills.
pub open spec fn cells_of(cycle: CycleRow) -> Cells {
    (Some(cycle.name), cycle.release_date, cycle.eol_date, Some(cycle.lts))
}

/// The cycle that the cells of a row stand for: a null name reads as the empty name, a
/// null flag as `false`.
pub open spec fn cycle_of(cells: Cells) -> CycleRow {
    CycleRow {
        name: match cells.0 {
            Some(name) => name,
            None => Seq::empty(),
        },
        release_date: cells.1,
        eol_date: cells.2,
        lts: match cells.3 {
            Some(lts) => lts,
            None => false,
        },
    }
}

/// The rows that a table of cycles fills.
pub open spec fn frame_of(table: Seq<CycleRow>) -> Seq<Cells> {
    table.map_values(|c: CycleRow| cells_of(c))
}

/// The table of cycles that the rows of a frame stand for.
pub open spec fn table_of(cells: Seq<Cells>) -> Seq<CycleRow> {
    cells.map_values(|c: Cells| cycle_of(c))
}

/// A table that is written to a frame and read back is the table that was written.
pub proof fn lemma_frame_round_trip(table: Seq<CycleRow>)
    ensures
        table_of(frame_of(table)) == table,
{
    assert(table_of(frame_of(table)) =~= table);
}

/// Builds a frame of four columns with `polars::prelude::Column::new` and
/// `DataFrame::new`, as high as `names` is long. `DataFrame::new` accepts columns of
/// distinct names that are all as long as the height, so equally long columns give a
/// frame; its rows are the cells handed in.
#[verifier::external_body]
pub(crate) fn build_frame(columns: FrameColumns) -> (out: Result<
    polars::prelude::DataFrame,
    polars::prelude::PolarsError,
>)
    ensures
        columns.aligned() ==> out is Ok,
        out matches Ok(frame) ==> frame_conforms(frame) && frame_rows(frame) == columns.cells(),
{
    polars::prelude::DataFrame::new(
        columns.names.len(),
        vec![
            polars::prelude::Column::new("name".into(), columns.names),
            polars::prelude::Column::new("release_date".into(), columns.release_dates),
            polars::prelude::Column::new("eol_date".into(), columns.eol_dates),
            polars::prelude::Column::new("lts".into(), columns.lts),
        ],
    )
}

/// Reads the four columns of a frame of cycles with `DataFrame::column` and the typed
/// views `Column::str`, `Column::i32` and `Column::bool`. These fail exactly where a
/// column is missing or of another type; otherwise the cells are those of the frame. (A
/// process that sets the debugging switch `POLARS_PANIC_ON_ERR` asks `polars` to panic
/// where it would report a failure; this holds of a process that does not.)
#[verifier::external_body]
pub(crate) fn read_frame(frame: &polars::prelude::DataFrame) -> (out: Result<
    FrameColumns,
    polars::prelude::PolarsError,
>)
    ensures
        out is Ok == frame_conforms(*frame),
        out matches Ok(columns) ==> columns.aligned() && columns.cells() == frame_rows(*frame),
{
    let names = frame.column("name")?.str()?.iter().map(|v| v.map(|s| s.to_string())).collect();
    let release_dates = frame.column("release_date")?.i32()?.iter().collect();
    let eol_dates = frame.column("eol_date")?.i32()?.iter().collect();
    let lts = frame.column("lts")?.bool()?.iter().collect();
    Ok(FrameColumns { names, release_dates, eol_dates, lts })
}

/// Words a failure of `polars` with the `Display` of its `PolarsError`. Nothing is claimed
/// of the words.
#[verifier::external_body]
pub(crate) fn failure_text(failure: &polars::prelude::PolarsError) -> (text: String) {
    failure.to_string()
}

/// Splits a table of cycles into its four columns.
pub fn columns_of(cycles: Vec<ProductCycle>) -> (columns: FrameColumns)
    ensures
        columns.aligned(),
        columns.cells() == frame_of(rows(cycles@)),
{
    let mut columns = FrameColumns {
        names: Vec::new(),
        release_dates: Vec::new(),
        eol_dates: Vec::new(),
        lts: Vec::new(),
    };
    let mut i: usize = 0;
    while i < cycles.len()
        invariant
            i <= cycles.len(),
            columns.aligned(),
            columns.names@.len() == i,
            forall|j: int|
                0 <= j < i ==> #[trigger] columns.cells()[j] == cells_of(cycles@[j]@),
        decreases cycles.len() - i,
    {
        let ghost before = columns.cells();
        let cycle = &cycles[i];
        columns.names.push(Some(cycle.name.clone()));
        columns.release_dates.push(cycle.release_date);
        columns.eol_dates.push(cycle.eol_date);
        columns.lts.push(Some(cycle.lts));
        assert forall|j: int| 0 <= j < i + 1 implies #[trigger] columns.cells()[j] == cells_of(
            cycles@[j]@,
        ) by {
            if j < i {
                assert(columns.cells()[j] == before[j]);
            }
        }
        i += 1;
    }
    assert(columns.cells() =~= frame_of(rows(cycles@)));
    columns
}

/// Joins four columns into a table of cycles; columns of unequal length make no table.
pub fn cycles_of(columns: &FrameColumns) -> (cycles: Option<Vec<ProductCycle>>)
    ensures
        cycles is Some == columns.aligned(),
        cycles matches Some(c) ==> rows(c@) == table_of(columns.cells()),
{
    let n = columns.names.len();
    if columns.release_dates.len() != n || columns.eol_dates.len() != n || columns.lts.len() != n {
        return None;
    }
    let mut cycles: Vec<ProductCycle> = Vec::new();
    let mut i: usize = 0;
    while i < n
        invariant
            i <= n,
            n == columns.names@.len(),
            columns.aligned(),
            cycles@.len() == i,
            forall|j: int| 0 <= j < i ==> (#[trigger] cycles@[j])@ == cycle_of(columns.cells()[j]),
        decreases n - i,
    {
        let name = match &columns.names[i] {
            Some(name) => name.clone(),
            None => String::new(),
        };
        let lts = match columns.lts[i] {
            Some(lts) => lts,
            None => false,
        };
        cycles.push(
            ProductCycle {
                name,
                release_date: columns.release_dates[i],
                eol_date: columns.eol_dates[i],
                lts,
            },
        );
        i += 1;
    }
    assert(rows(cycles@) =~= table_of(columns.cells()));
    Some(cycles)
}

/// Writes a table of cycles to a frame. This always gives a frame, and its rows are those of
/// the table.
pub fn product_cycles_to_dataframe(cycles: Vec<ProductCycle>) -> (out: Result<
    polars::prelude::DataFrame,
    polars::prelude::PolarsError,
>)
    ensures
        out is Ok,
        out matches Ok(frame) ==> frame_conforms(frame) && frame_rows(frame) == frame_of(
            rows(cycles@),
        ),
{
    build_frame(columns_of(cycles))
}

/// Reads the table of cycles off a frame. This fails exactly where the frame lacks one of
/// the four columns or has it with another type.
pub fn dataframe_to_product_cycles(frame: &polars::prelude::DataFrame) -> (out: Result<
    Vec<ProductCycle>,
    polars::prelude::PolarsError,
>)
    ensures
        out is Ok == frame_conforms(*frame),
        out matches Ok(cycles) ==> rows(cycles@) == table_of(frame_rows(*frame)),
{
    match read_frame(frame) {
        Ok(columns) => match cycles_of(&columns) {
            Some(cycles) => Ok(cycles),
            None => Ok(Vec::new()),
        },
        Err(e) => Err(e),
    }
}

/// The table of cycles that a frame stands for, if the frame conforms.
pub open spec fn frame_table(frame: polars::prelude::DataFrame) -> Option<Seq<CycleRow>> {
    if frame_conforms(frame) {
        Some(table_of(frame_rows(frame)))
    } else {
        None
    }
}

/// Reads the table of cycles off a frame that a source handed over. A frame that lacks one
/// of the four columns, or has it with another type, is a malformed answer.
pub fn table_from_frame(frame: &polars::prelude::DataFrame) -> (out: Result<
    Vec<ProductCycle>,
    Error,
>)
    ensures
        match frame_table(*frame) {
            Some(table) => cycles_outcome(out) == Ok::<Seq<CycleRow>, Failure>(table),
            None => out matches Err(e) && e@ is Malformed,
        },
{
    match dataframe_to_product_cycles(frame) {
        Ok(cycles) => Ok(cycles),
        Err(failure) => Err(Error::Malformed(failure_text(&failure))),
    }
}

} // verus!
