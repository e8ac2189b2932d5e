//! A table of records keyed by product name, written by upsert.

use vstd::prelude::*;
use crate::domain::{version_rows, SoftwareVersion, VersionRow};
use crate::text::text_eq;

verus! {

/// Whether no two rows carry the same product name.
pub open spec fn names_distinct(rows: Seq<VersionRow>) -> bool {
    forall|i: int, j: int|
        0 <= i < j < rows.len() ==> (#[trigger] rows[i]).name != (#[trigger] rows[j]).name
}

/// Whether some row carries the product name.
pub open spec fn holds(rows: Seq<VersionRow>, name: Seq<char>) -> bool {
    exists|i: int| 0 <= i < rows.len() && (#[trigger] rows[i]).name == name
}

/// The place of a row with the product name.
pub open spec fn place_of(rows: Seq<VersionRow>, name: Seq<char>) -> int {
    choose|i: int| 0 <= i < rows.len() && (#[trigger] rows[i]).name == name
}

/// The table after one upsert: the record replaces the row of its product where there is
/// one, and is added at the end where there is none.
pub open spec fn upserted(rows: Seq<VersionRow>, record: VersionRow) -> Seq<VersionRow> {
    if holds(rows, record.name) {
        rows.update(place_of(rows, record.name), record)
    } else {
        rows.push(record)
    }
}

/// The table after upserting the records one after the other.
pub open spec fn upserted_all(rows: Seq<VersionRow>, records: Seq<VersionRow>) -> Seq<VersionRow>
    decreases records.len(),
{
    if records.len() == 0 {
        rows
    } else {
        upserted(upserted_all(rows, records.drop_last()), records.last())
    }
}

/// An upsert keeps product names distinct, leaves every other row as it was, and makes the
/// record the row of its product.
pub proof fn lemma_upserted(rows: Seq<VersionRow>, record: VersionRow)
    requires
        names_distinct(rows),
    ensures
        names_distinct(upserted(rows, record)),
        holds(upserted(rows, record), record.name),
        upserted(rows, record)[place_of(upserted(rows, record), record.name)] == record,
        forall|i: int|
            0 <= i < rows.len() && (#[trigger] rows[i]).name != record.name ==> upserted(
                rows,
                record,
            )[i] == rows[i],
        forall|name: Seq<char>| holds(rows, name) ==> holds(upserted(rows, record), name),
        upserted(rows, record).len() == if holds(rows, record.name) {
            rows.len()
        } else {
            rows.len() + 1
        },
{
    let out = upserted(rows, record);
    if holds(rows, record.name) {
        let p = place_of(rows, record.name);
        assert(out[p].name == record.name);
        assert forall|name: Seq<char>| holds(rows, name) implies holds(out, name) by {
            let k = place_of(rows, name);
            assert(out[k].name == name);
        }
    } else {
        assert(out[rows.len() as int].name == record.name);
        assert forall|name: Seq<char>| holds(rows, name) implies holds(out, name) by {
            let k = place_of(rows, name);
            assert(out[k].name == name);
        }
    }
    let q = place_of(out, record.name);
    assert(out[q].name == record.name);
}

/// Writing the same record twice leaves the table as writing it once does: no row is added
/// and none is changed by the second write.
pub proof fn lemma_upsert_idempotent(rows: Seq<VersionRow>, record: VersionRow)
    requires
        names_distinct(rows),
    ensures
        upserted(upserted(rows, record), record) == upserted(rows, record),
{
    lemma_upserted(rows, record);
    let once = upserted(rows, record);
    let q = place_of(once, record.name);
    assert(once.update(q, record) =~= once);
}

/// Upserting a list of records keeps product names distinct, keeps every product that the
/// table held, and leaves a row for the product of each record.
pub proof fn lemma_upserted_all(rows: Seq<VersionRow>, records: Seq<VersionRow>)
    requires
        names_distinct(rows),
    ensures
        names_distinct(upserted_all(rows, records)),
        forall|name: Seq<char>| holds(rows, name) ==> holds(upserted_all(rows, records), name),
        forall|i: int|
            0 <= i < records.len() ==> holds(
                upserted_all(rows, records),
                (#[trigger] records[i]).name,
            ),
        upserted_all(rows, records).len() <= rows.len() + records.len(),
    decreases records.len(),
{
    if records.len() > 0 {
        let front = records.drop_last();
        lemma_upserted_all(rows, front);
        let mid = upserted_all(rows, front);
        lemma_upserted(mid, records.last());
        assert forall|i: int| 0 <= i < records.len() implies holds(
            upserted_all(rows, records),
            (#[trigger] records[i]).name,
        ) by {
            if i < front.len() {
                assert(front[i] == records[i]);
                assert(holds(mid, front[i].name));
            }
        }
    }
}

/// Where the table and the records together name every product once, upserting the
/// records adds them at the end, in order: one row for each record.
pub proof fn lemma_upserted_all_fresh(rows: Seq<VersionRow>, records: Seq<VersionRow>)
    requires
        names_distinct(rows + records),
    ensures
        upserted_all(rows, records) == rows + records,
    decreases records.len(),
{
    if records.len() == 0 {
        assert(rows + records =~= rows);
    } else {
        let front = records.drop_last();
        let both = rows + records;
        assert forall|i: int, j: int| 0 <= i < j < (rows + front).len() implies (#[trigger] (rows
            + front)[i]).name != (#[trigger] (rows + front)[j]).name by {
            assert((rows + front)[i] == both[i]);
            assert((rows + front)[j] == both[j]);
        }
        lemma_upserted_all_fresh(rows, front);
        let mid = rows + front;
        let last = records.last();
        assert(both[both.len() - 1] == last);
        if holds(mid, last.name) {
            let k = place_of(mid, last.name);
            assert(both[k].name == both[both.len() - 1].name);
        }
        assert(mid.push(last) =~= rows + records);
    }
}

/// A table of records in which each product has one row.
#[derive(Debug)]
pub struct VersionTable {
    rows: Vec<SoftwareVersion>,
}

impl View for VersionTable {
    type V = Seq<VersionRow>;

    closed spec fn view(&self) -> Seq<VersionRow> {
        version_rows(self.rows@)
    }
}

impl VersionTable {
    #[verifier::type_invariant]
    spec fn one_row_each(self) -> bool {
        names_distinct(version_rows(self.rows@))
    }

    /// What holds of every table: no product has two rows.
    pub open spec fn wf(&self) -> bool {
        names_distinct(self@)
    }

    /// A table without rows.
    pub fn new() -> (table: VersionTable)
        ensures
            table.wf(),
            table@ == Seq::<VersionRow>::empty(),
    {
        let table = VersionTable { rows: Vec::new() };
        assert(table@ =~= Seq::<VersionRow>::empty());
        table
    }

    /// The number of rows.
    pub fn len(&self) -> (n: usize)
        ensures
            n == self@.len(),
            self.wf(),
    {
        proof {
            use_type_invariant(self);
        }
        self.rows.len()
    }

    /// The place of the row of a product, if the table has one.
    pub fn find(&self, name: &str) -> (place: Option<usize>)
        ensures
            place is Some == holds(self@, name@),
            place matches Some(i) ==> i < self@.len() && self@[i as int].name == name@
                && place_of(self@, name@) == i,
    {
        proof {
            use_type_invariant(self);
        }
        let mut i: usize = 0;
        while i < self.rows.len()
            invariant
                i <= self.rows.len(),
                names_distinct(self@),
                forall|j: int| 0 <= j < i ==> (#[trigger] self@[j]).name != name@,
            decreases self.rows.len() - i,
        {
            if text_eq(self.rows[i].name.as_str(), name) {
                assert(self@[i as int].name == name@);
                proof {
                    lemma_place_of(self@, name@, i as int);
                }
                return Some(i);
            }
            i += 1;
        }
        None
    }

    /// The row of a product, if the table has one.
    pub fn get(&self, name: &str) -> (row: Option<&SoftwareVersion>)
        ensures
            row is Some == holds(self@, name@),
            row matches Some(r) ==> r@.name == name@ && r@ == self@[place_of(self@, name@)],
    {
        match self.find(name) {
            Some(i) => {
                assert(self@[i as int] == self.rows@[i as int]@);
                Some(&self.rows[i])
            },
            None => None,
        }
    }

    /// Writes a record: it replaces the row of its product, or is added where the product
    /// has none yet. Returns whether a row was replaced.
    pub fn upsert(&mut self, record: SoftwareVersion) -> (replaced: bool)
        ensures
            final(self).wf(),
            final(self)@ == upserted(old(self)@, record@),
            replaced == holds(old(self)@, record@.name),
    {
        proof {
            use_type_invariant(&*self);
            lemma_upserted(self@, record@);
        }
        let place = self.find(record.name.as_str());
        let ghost before = self@;
        let mut taken = VersionTable { rows: Vec::new() };
        core::mem::swap(self, &mut taken);
        let VersionTable { rows } = taken;
        let mut rows = rows;
        let replaced = match place {
            Some(i) => {
                rows.set(i, record);
                assert(version_rows(rows@) =~= before.update(i as int, record@));
                true
            },
            None => {
                rows.push(record);
                assert(version_rows(rows@) =~= before.push(record@));
                false
            },
        };
        *self = VersionTable { rows };
        replaced
    }

    /// Writes the records one after the other and returns how many writes were made.
    pub fn upsert_all(&mut self, records: Vec<SoftwareVersion>) -> (writes: usize)
        ensures
            final(self).wf(),
            final(self)@ == upserted_all(old(self)@, version_rows(records@)),
            writes == records@.len(),
    {
        proof {
            use_type_invariant(&*self);
        }
        let ghost all = version_rows(records@);
        let ghost start = self@;
        let mut writes: usize = 0;
        assert(all.take(0) =~= Seq::<VersionRow>::empty());
        while writes < records.len()
            invariant
                writes <= records.len(),
                all == version_rows(records@),
                self.wf(),
                self@ == upserted_all(start, all.take(writes as int)),
            decreases records.len() - writes,
        {
            assert(all.take(writes + 1).drop_last() =~= all.take(writes as int));
            assert(all.take(writes + 1).last() == records@[writes as int]@);
            self.upsert(records[writes].clone());
            writes += 1;
        }
        assert(all.take(records.len() as int) =~= all);
        writes
    }

    /// The rows of the table, in the order in which their products were first written.
    pub fn into_rows(self) -> (rows: Vec<SoftwareVersion>)
        ensures
            version_rows(rows@) == self@,
            names_distinct(version_rows(rows@)),
    {
        proof {
            use_type_invariant(&self);
        }
        self.rows
    }
}

/// In a table with distinct names the place of a name is the one place that carries it.
pub proof fn lemma_place_of(rows: Seq<VersionRow>, name: Seq<char>, i: int)
    requires
        0 <= i < rows.len(),
        rows[i].name == name,
    ensures
        names_distinct(rows) ==> place_of(rows, name) == i,
        rows[place_of(rows, name)].name == name,
{
}

} // verus!
