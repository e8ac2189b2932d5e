//! The cycle of one collection run, its units, and what a run leaves behind.
//!
//! The units of a run do network work and run concurrently, so the orchestrator does not
//! run them. It holds the state of the cycle: the caller dispatches each unit, reports what
//! came of it, and asks for the outcome once every unit has ended.

use vstd::prelude::*;
use crate::aggregate::{
    cleaned_rows, flattened, lemma_merged_keeps_every_product, lemma_merged_of_distinct_products,
    merged, table_views, Aggregator,
};
use crate::config::Target;
use crate::domain::{opt_view, version_rows, SoftwareVersion, VersionRow};
use crate::error::{Error, Failure};
use crate::metrics::{volume_of, Volume};
use crate::store::{holds, names_distinct};

verus! {

/// Where a cycle stands.
#[derive(Debug, Clone, Copy, PartialEq, Eq, Structural)]
pub enum CycleState {
    Idle,
    Running,
    Completed,
    PartiallyCompleted,
}

/// Where one unit of a cycle stands.
#[derive(Debug, Clone, Copy, PartialEq, Eq, Structural)]
pub enum UnitState {
    Pending,
    Fetching,
    Succeeded,
    Failed,
}

/// One target of a cycle and what came of it.
#[derive(Debug, PartialEq, Eq)]
pub struct Unit {
    pub target: String,
    pub state: UnitState,
    pub records: Vec<SoftwareVersion>,
    pub failure: Option<Error>,
    /// The position, in the fallback chain of the target, of the strategy that answered.
    pub answered_by: Option<usize>,
}

/// A [`Unit`] as plain values.
pub struct UnitRow {
    pub target: Seq<char>,
    pub state: UnitState,
    pub records: Seq<VersionRow>,
    pub failure: Option<Failure>,
    pub answered_by: Option<usize>,
}

impl View for Unit {
    type V = UnitRow;

    open spec fn view(&self) -> UnitRow {
        UnitRow {
            target: self.target@,
            state: self.state,
            records: version_rows(self.records@),
            failure: crate::error::failure_view(self.failure),
            answered_by: self.answered_by,
        }
    }
}

/// The views of units.
pub open spec fn unit_rows(units: Seq<Unit>) -> Seq<UnitRow> {
    units.map_values(|u: Unit| u@)
}

/// A unit that has not been dispatched.
pub open spec fn pending_unit(target: Seq<char>) -> UnitRow {
    UnitRow {
        target,
        state: UnitState::Pending,
        records: Seq::empty(),
        failure: None,
        answered_by: None,
    }
}

/// One pending unit for each enabled target, in order.
pub open spec fn pending_units(targets: Seq<Target>) -> Seq<UnitRow>
    decreases targets.len(),
{
    if targets.len() == 0 {
        Seq::empty()
    } else {
        let head = pending_units(targets.drop_last());
        if targets.last().enabled {
            head.push(pending_unit(targets.last().name@))
        } else {
            head
        }
    }
}

/// Whether a unit has ended.
pub open spec fn ended(state: UnitState) -> bool {
    state == UnitState::Succeeded || state == UnitState::Failed
}

/// Whether every unit has ended.
pub open spec fn all_ended(units: Seq<UnitRow>) -> bool {
    forall|i: int| 0 <= i < units.len() ==> ended((#[trigger] units[i]).state)
}

/// The words in which the failure of a unit is reported.
pub open spec fn reason_of(unit: UnitRow) -> Seq<char> {
    match unit.failure {
        Some(f) => f.message(),
        None => Seq::empty(),
    }
}

/// The failed targets with their reasons, in order.
pub open spec fn failures_of(units: Seq<UnitRow>) -> Seq<(Seq<char>, Seq<char>)>
    decreases units.len(),
{
    if units.len() == 0 {
        Seq::empty()
    } else {
        let head = failures_of(units.drop_last());
        if units.last().state == UnitState::Failed {
            head.push((units.last().target, reason_of(units.last())))
        } else {
            head
        }
    }
}

/// The targets that succeeded, each with the position, in its fallback chain, of the
/// strategy that answered, in order.
pub open spec fn answers_of(units: Seq<UnitRow>) -> Seq<(Seq<char>, usize)>
    decreases units.len(),
{
    if units.len() == 0 {
        Seq::empty()
    } else {
        let head = answers_of(units.drop_last());
        if units.last().state == UnitState::Succeeded {
            head.push((units.last().target, answered_position(units.last())))
        } else {
            head
        }
    }
}

/// The position of the strategy that answered for a unit.
pub open spec fn answered_position(unit: UnitRow) -> usize {
    match unit.answered_by {
        Some(position) => position,
        None => 0,
    }
}

/// The tables of the targets that succeeded, in order.
pub open spec fn tables_of(units: Seq<UnitRow>) -> Seq<Seq<VersionRow>>
    decreases units.len(),
{
    if units.len() == 0 {
        Seq::empty()
    } else {
        let head = tables_of(units.drop_last());
        if units.last().state == UnitState::Succeeded {
            head.push(units.last().records)
        } else {
            head
        }
    }
}

/// The state in which a cycle ends: completed only where no unit failed.
pub open spec fn end_state(units: Seq<UnitRow>) -> CycleState {
    if failures_of(units).len() == 0 {
        CycleState::Completed
    } else {
        CycleState::PartiallyCompleted
    }
}

/// A unit after its outcome was reported: a table with rows makes it succeed, a table
/// without rows fails it as `NotFound`, and an error fails it with that error.
pub open spec fn completed_unit(
    unit: UnitRow,
    outcome: Result<Seq<VersionRow>, Failure>,
    answered_by: usize,
) -> UnitRow {
    match outcome {
        Ok(records) => if records.len() == 0 {
            UnitRow { state: UnitState::Failed, failure: Some(Failure::NotFound), ..unit }
        } else {
            UnitRow {
                state: UnitState::Succeeded,
                records,
                answered_by: Some(answered_by),
                ..unit
            }
        },
        Err(e) => UnitRow { state: UnitState::Failed, failure: Some(e), ..unit },
    }
}

/// A unit after the cycle timed out: one that had not ended fails as timed out.
pub open spec fn expired_unit(unit: UnitRow) -> UnitRow {
    if ended(unit.state) {
        unit
    } else {
        UnitRow {
            state: UnitState::Failed,
            failure: Some(Failure::Transient("cycle timed out"@)),
            ..unit
        }
    }
}

/// What reporting an outcome gives, as plain values.
pub open spec fn outcome_view(outcome: Result<Vec<SoftwareVersion>, Error>) -> Result<
    Seq<VersionRow>,
    Failure,
> {
    match outcome {
        Ok(records) => Ok(version_rows(records@)),
        Err(e) => Err(e@),
    }
}

/// Every unit that has ended shows either in the failures or in the tables, and every
/// table has its answer.
pub proof fn lemma_units_accounted(units: Seq<UnitRow>)
    requires
        all_ended(units),
    ensures
        failures_of(units).len() + tables_of(units).len() == units.len(),
        answers_of(units).len() == tables_of(units).len(),
    decreases units.len(),
{
    if units.len() > 0 {
        let front = units.drop_last();
        assert(forall|i: int| 0 <= i < front.len() ==> front[i] == units[i]);
        lemma_units_accounted(front);
    }
}

/// The table of every unit that succeeded is among the tables.
pub proof fn lemma_tables_of_holds(units: Seq<UnitRow>, i: int)
    requires
        0 <= i < units.len(),
        units[i].state == UnitState::Succeeded,
    ensures
        exists|j: int| 0 <= j < tables_of(units).len() && tables_of(units)[j] == units[i].records,
    decreases units.len(),
{
    let front = units.drop_last();
    let head = tables_of(front);
    if i == units.len() - 1 {
        assert(tables_of(units)[head.len() as int] == units[i].records);
    } else {
        assert(front[i] == units[i]);
        lemma_tables_of_holds(front, i);
        let j = choose|j: int| 0 <= j < head.len() && head[j] == front[i].records;
        assert(tables_of(units)[j] == units[i].records);
    }
}

/// Where no unit failed, no failure is listed.
pub proof fn lemma_no_failures(units: Seq<UnitRow>)
    requires
        forall|i: int| 0 <= i < units.len() ==> (#[trigger] units[i]).state != UnitState::Failed,
    ensures
        failures_of(units).len() == 0,
    decreases units.len(),
{
    if units.len() > 0 {
        let front = units.drop_last();
        assert(forall|i: int| 0 <= i < front.len() ==> front[i] == units[i]);
        lemma_no_failures(front);
    }
}

/// Where exactly one unit of a run fails and the others succeed, the failures list that
/// one target and no other, and the merged table has a row for the product of every
/// record of every unit that succeeded. Where no product is named twice, the merged table
/// is made of exactly the records of the units that succeeded, cleaned, in order.
pub proof fn lemma_one_failure_is_isolated(
    units: Seq<UnitRow>,
    failed: int,
    suffix: Option<Seq<char>>,
)
    requires
        0 <= failed < units.len(),
        units[failed].state == UnitState::Failed,
        forall|i: int|
            0 <= i < units.len() && i != failed ==> (#[trigger] units[i]).state
                == UnitState::Succeeded,
    ensures
        failures_of(units) == seq![(units[failed].target, reason_of(units[failed]))],
        tables_of(units).len() == units.len() - 1,
        end_state(units) == CycleState::PartiallyCompleted,
        forall|i: int, k: int|
            0 <= i < units.len() && i != failed && 0 <= k < units[i].records.len() ==> holds(
                merged(tables_of(units), suffix),
                (#[trigger] units[i].records[k]).name,
            ),
        names_distinct(flattened(tables_of(units))) ==> merged(tables_of(units), suffix)
            == cleaned_rows(flattened(tables_of(units)), suffix),
    decreases units.len(),
{
    if names_distinct(flattened(tables_of(units))) {
        lemma_merged_of_distinct_products(tables_of(units), suffix);
    }
    let front = units.drop_last();
    assert(forall|i: int| 0 <= i < front.len() ==> front[i] == units[i]);
    if failed == units.len() - 1 {
        lemma_no_failures(front);
        assert(failures_of(units) =~= seq![(units[failed].target, reason_of(units[failed]))]);
    } else {
        lemma_one_failure_is_isolated(front, failed, suffix);
    }
    assert(all_ended(units));
    lemma_units_accounted(units);
    let tables = tables_of(units);
    lemma_merged_keeps_every_product(tables, suffix);
    assert forall|i: int, k: int|
        0 <= i < units.len() && i != failed && 0 <= k < units[i].records.len() implies holds(
        merged(tables, suffix),
        (#[trigger] units[i].records[k]).name,
    ) by {
        lemma_tables_of_holds(units, i);
        let j = choose|j: int| 0 <= j < tables.len() && tables[j] == units[i].records;
        assert(tables[j][k] == units[i].records[k]);
    }
}

/// What a run leaves behind.
#[derive(Debug, PartialEq, Eq)]
pub struct CollectionOutcome {
    pub state: CycleState,
    pub records: Vec<SoftwareVersion>,
    /// The targets that succeeded, each with the position of the strategy that answered.
    pub answers: Vec<(String, usize)>,
    /// The targets that failed, each with the reason.
    pub failures: Vec<(String, String)>,
    pub targets_total: usize,
    pub started_at: u64,
    pub finished_at: u64,
}

/// The views of answers.
pub open spec fn answer_views(answers: Seq<(String, usize)>) -> Seq<(Seq<char>, usize)> {
    answers.map_values(|a: (String, usize)| (a.0@, a.1))
}

/// The views of pairs of texts.
pub open spec fn pair_views(pairs: Seq<(String, String)>) -> Seq<(Seq<char>, Seq<char>)> {
    pairs.map_values(|p: (String, String)| (p.0@, p.1@))
}

impl CollectionOutcome {
    /// How many targets failed.
    pub fn targets_failed(&self) -> (n: usize)
        ensures
            n == self.failures@.len(),
    {
        self.failures.len()
    }

    /// How many targets succeeded.
    pub fn targets_succeeded(&self) -> (n: usize)
        ensures
            n == if self.targets_total >= self.failures@.len() {
                self.targets_total - self.failures@.len()
            } else {
                0
            },
    {
        if self.targets_total >= self.failures.len() {
            self.targets_total - self.failures.len()
        } else {
            0
        }
    }

    /// How many records the run produced.
    pub fn total_records(&self) -> (n: usize)
        ensures
            n == self.records@.len(),
    {
        self.records.len()
    }

    /// The seconds that the run took.
    pub fn duration(&self) -> (seconds: u64)
        ensures
            seconds == if self.finished_at >= self.started_at {
                self.finished_at - self.started_at
            } else {
                0
            },
    {
        if self.finished_at >= self.started_at {
            self.finished_at - self.started_at
        } else {
            0
        }
    }

    /// Whether no target succeeded, so that nothing is to be written. This is not the same
    /// as a run that succeeded without data.
    pub fn is_noop(&self) -> (noop: bool)
        ensures
            noop == (self.targets_total <= self.failures@.len()),
    {
        self.targets_total <= self.failures.len()
    }
}

/// Copies a table of records.
pub fn clone_records(records: &Vec<SoftwareVersion>) -> (copy: Vec<SoftwareVersion>)
    ensures
        version_rows(copy@) == version_rows(records@),
{
    let mut copy: Vec<SoftwareVersion> = Vec::new();
    let mut i: usize = 0;
    while i < records.len()
        invariant
            i <= records.len(),
            copy@.len() == i,
            forall|j: int| 0 <= j < i ==> (#[trigger] copy@[j])@ == records@[j]@,
        decreases records.len() - i,
    {
        copy.push(records[i].clone());
        i += 1;
    }
    assert(version_rows(copy@) =~= version_rows(records@));
    copy
}

/// What a dashboard shows of one unit of a run.
#[derive(Debug, PartialEq, Eq)]
pub struct UnitStat {
    pub name: String,
    /// Whether the unit succeeded.
    pub active: bool,
    /// How many versions the unit found; none unless it succeeded.
    pub version_count: usize,
    pub volume: Volume,
    /// The words of the failure, where the unit failed.
    pub error_message: Option<String>,
}

/// A [`UnitStat`] as plain values.
pub struct StatRow {
    pub name: Seq<char>,
    pub active: bool,
    pub version_count: usize,
    pub volume: Volume,
    pub error_message: Option<Seq<char>>,
}

impl View for UnitStat {
    type V = StatRow;

    open spec fn view(&self) -> StatRow {
        StatRow {
            name: self.name@,
            active: self.active,
            version_count: self.version_count,
            volume: self.volume,
            error_message: opt_view(self.error_message),
        }
    }
}

/// The views of stats.
pub open spec fn stat_rows(stats: Seq<UnitStat>) -> Seq<StatRow> {
    stats.map_values(|s: UnitStat| s@)
}

/// The count found for the unit at a place; none where no count was handed in for it.
pub open spec fn count_at(found: Seq<usize>, place: int) -> usize {
    if 0 <= place < found.len() {
        found[place]
    } else {
        0
    }
}

/// What is shown of a unit for which `found` versions were counted: it is active exactly
/// where it succeeded, its count is `found` where it is active and none otherwise, and it
/// carries the words of its failure exactly where it failed.
pub open spec fn stat_of(unit: UnitRow, found: usize) -> StatRow {
    let active = unit.state == UnitState::Succeeded;
    let count = if active {
        found
    } else {
        0usize
    };
    StatRow {
        name: unit.target,
        active,
        version_count: count,
        volume: volume_of(count as nat),
        error_message: if unit.state == UnitState::Failed {
            Some(reason_of(unit))
        } else {
            None
        },
    }
}

/// What is shown of the units of a run, one row for each unit, place by place.
pub open spec fn stats_of(units: Seq<UnitRow>, found: Seq<usize>) -> Seq<StatRow> {
    Seq::new(units.len(), |i: int| stat_of(units[i], count_at(found, i)))
}

/// The versions of all the units together.
pub open spec fn versions_total(stats: Seq<StatRow>) -> nat
    decreases stats.len(),
{
    if stats.len() == 0 {
        0
    } else {
        versions_total(stats.drop_last()) + stats.last().version_count as nat
    }
}

/// Adds up the versions of all the units; a sum beyond what fits is given as the largest
/// number that does.
pub fn total_versions(stats: &Vec<UnitStat>) -> (total: usize)
    ensures
        total == if versions_total(stat_rows(stats@)) <= usize::MAX {
            versions_total(stat_rows(stats@))
        } else {
            usize::MAX as nat
        },
{
    let ghost all = stat_rows(stats@);
    let mut total: usize = 0;
    let mut i: usize = 0;
    assert(all.take(0) =~= Seq::<StatRow>::empty());
    while i < stats.len()
        invariant
            i <= stats.len(),
            all == stat_rows(stats@),
            total == if versions_total(all.take(i as int)) <= usize::MAX {
                versions_total(all.take(i as int))
            } else {
                usize::MAX as nat
            },
        decreases stats.len() - i,
    {
        assert(all.take(i + 1).drop_last() =~= all.take(i as int));
        assert(all.take(i + 1).last() == stats@[i as int]@);
        let count = stats[i].version_count;
        if total > usize::MAX - count {
            total = usize::MAX;
        } else {
            total = total + count;
        }
        i += 1;
    }
    assert(all.take(stats.len() as int) =~= all);
    total
}

/// The state of one collection run.
#[derive(Debug)]
pub struct Orchestrator {
    state: CycleState,
    units: Vec<Unit>,
    started_at: u64,
    aggregator: Aggregator,
}

impl Orchestrator {
    /// Where the cycle stands.
    pub closed spec fn state(&self) -> CycleState {
        self.state
    }

    /// The units of the run, as plain values.
    pub closed spec fn units(&self) -> Seq<UnitRow> {
        unit_rows(self.units@)
    }

    /// The second at which the cycle began.
    pub closed spec fn started_at(&self) -> u64 {
        self.started_at
    }

    /// The suffix that the cleaning pass of the run strips.
    pub closed spec fn suffix(&self) -> Option<Seq<char>> {
        opt_view(self.aggregator.strip_suffix)
    }

    /// An idle orchestrator without units.
    pub fn new(aggregator: Aggregator) -> (orchestrator: Orchestrator)
        ensures
            orchestrator.state() == CycleState::Idle,
            orchestrator.units() == Seq::<UnitRow>::empty(),
            orchestrator.suffix() == opt_view(aggregator.strip_suffix),
    {
        let orchestrator = Orchestrator {
            state: CycleState::Idle,
            units: Vec::new(),
            started_at: 0,
            aggregator,
        };
        assert(orchestrator.units() =~= Seq::<UnitRow>::empty());
        orchestrator
    }

    /// Where the cycle stands.
    pub fn cycle_state(&self) -> (state: CycleState)
        ensures
            state == self.state(),
    {
        self.state
    }

    /// How many units the run has.
    pub fn unit_count(&self) -> (n: usize)
        ensures
            n == self.units().len(),
    {
        self.units.len()
    }

    /// Where a unit stands, if there is such a unit.
    pub fn unit_state(&self, unit: usize) -> (state: Option<UnitState>)
        ensures
            state == if unit < self.units().len() {
                Some(self.units()[unit as int].state)
            } else {
                None
            },
    {
        if unit < self.units.len() {
            Some(self.units[unit].state)
        } else {
            None
        }
    }

    /// The target of a unit, if there is such a unit.
    pub fn unit_target(&self, unit: usize) -> (target: Option<String>)
        ensures
            opt_view(target) == if unit < self.units().len() {
                Some(self.units()[unit as int].target)
            } else {
                None
            },
    {
        if unit < self.units.len() {
            Some(self.units[unit].target.clone())
        } else {
            None
        }
    }

    /// Begins a cycle: an idle orchestrator starts running with one pending unit for each
    /// enabled target. One that is not idle stays as it is. Returns whether the cycle began.
    pub fn begin(&mut self, targets: &Vec<Target>, now: u64) -> (began: bool)
        ensures
            began == (old(self).state() == CycleState::Idle),
            final(self).suffix() == old(self).suffix(),
            began ==> final(self).state() == CycleState::Running && final(self).units()
                == pending_units(targets@) && final(self).started_at() == now,
            !began ==> final(self).state() == old(self).state() && final(self).units() == old(
                self,
            ).units() && final(self).started_at() == old(self).started_at(),
    {
        if self.state != CycleState::Idle {
            return false;
        }
        let mut units: Vec<Unit> = Vec::new();
        let mut i: usize = 0;
        assert(targets@.take(0) =~= Seq::<Target>::empty());
        assert(unit_rows(units@) =~= Seq::<UnitRow>::empty());
        while i < targets.len()
            invariant
                i <= targets.len(),
                unit_rows(units@) == pending_units(targets@.take(i as int)),
            decreases targets.len() - i,
        {
            assert(targets@.take(i + 1).drop_last() =~= targets@.take(i as int));
            if targets[i].enabled {
                let ghost before = unit_rows(units@);
                let unit = Unit {
                    target: targets[i].name.clone(),
                    state: UnitState::Pending,
                    records: Vec::new(),
                    failure: None,
                    answered_by: None,
                };
                assert(version_rows(unit.records@) =~= Seq::<VersionRow>::empty());
                units.push(unit);
                assert(unit_rows(units@) =~= before.push(pending_unit(targets@[i as int].name@)));
            }
            i += 1;
        }
        assert(targets@.take(targets.len() as int) =~= targets@);
        self.units = units;
        self.state = CycleState::Running;
        self.started_at = now;
        true
    }

    /// Dispatches a pending unit of a running cycle: it starts fetching. Anything else is
    /// left as it is. Returns whether the unit was dispatched.
    pub fn dispatch(&mut self, unit: usize) -> (dispatched: bool)
        ensures
            dispatched == (old(self).state() == CycleState::Running && unit < old(
                self,
            ).units().len() && old(self).units()[unit as int].state == UnitState::Pending),
            final(self).state() == old(self).state(),
            final(self).suffix() == old(self).suffix(),
            final(self).started_at() == old(self).started_at(),
            dispatched ==> final(self).units() == old(self).units().update(
                unit as int,
                UnitRow { state: UnitState::Fetching, ..old(self).units()[unit as int] },
            ),
            !dispatched ==> final(self).units() == old(self).units(),
    {
        if self.state != CycleState::Running || unit >= self.units.len() {
            return false;
        }
        if self.units[unit].state != UnitState::Pending {
            return false;
        }
        let ghost before = unit_rows(self.units@);
        let Unit { target, state: _, records, failure, answered_by } = self.units.remove(unit);
        self.units.insert(
            unit,
            Unit { target, state: UnitState::Fetching, records, failure, answered_by },
        );
        assert(unit_rows(self.units@) =~= before.update(
            unit as int,
            UnitRow { state: UnitState::Fetching, ..before[unit as int] },
        ));
        true
    }

    /// Reports what came of a fetching unit of a running cycle. A unit that is not fetching
    /// is left as it is, so no unit is completed twice. Returns whether the report was
    /// taken.
    pub fn complete(
        &mut self,
        unit: usize,
        outcome: Result<Vec<SoftwareVersion>, Error>,
        answered_by: usize,
    ) -> (taken: bool)
        ensures
            taken == (old(self).state() == CycleState::Running && unit < old(self).units().len()
                && old(self).units()[unit as int].state == UnitState::Fetching),
            final(self).state() == old(self).state(),
            final(self).suffix() == old(self).suffix(),
            final(self).started_at() == old(self).started_at(),
            taken ==> final(self).units() == old(self).units().update(
                unit as int,
                completed_unit(old(self).units()[unit as int], outcome_view(outcome), answered_by),
            ),
            !taken ==> final(self).units() == old(self).units(),
    {
        if self.state != CycleState::Running || unit >= self.units.len() {
            return false;
        }
        if self.units[unit].state != UnitState::Fetching {
            return false;
        }
        let ghost before = unit_rows(self.units@);
        let Unit { target, state: _, records, failure, answered_by: by } = self.units.remove(unit);
        let done = match outcome {
            Ok(table) => {
                if table.len() == 0 {
                    Unit {
                        target,
                        state: UnitState::Failed,
                        records,
                        failure: Some(Error::NotFound),
                        answered_by: by,
                    }
                } else {
                    Unit {
                        target,
                        state: UnitState::Succeeded,
                        records: table,
                        failure,
                        answered_by: Some(answered_by),
                    }
                }
            },
            Err(e) => Unit {
                target,
                state: UnitState::Failed,
                records,
                failure: Some(e),
                answered_by: by,
            },
        };
        self.units.insert(unit, done);
        assert(unit_rows(self.units@) =~= before.update(
            unit as int,
            completed_unit(before[unit as int], outcome_view(outcome), answered_by),
        ));
        true
    }

    /// Ends every unit of a running cycle that has not ended: it fails as timed out.
    pub fn expire(&mut self)
        ensures
            final(self).state() == old(self).state(),
            final(self).suffix() == old(self).suffix(),
            final(self).started_at() == old(self).started_at(),
            old(self).state() != CycleState::Running ==> final(self).units() == old(self).units(),
            old(self).state() == CycleState::Running ==> final(self).units() == old(
                self,
            ).units().map_values(|u: UnitRow| expired_unit(u)),
            old(self).state() == CycleState::Running ==> all_ended(final(self).units()),
    {
        if self.state != CycleState::Running {
            return ;
        }
        let ghost before = unit_rows(self.units@);
        let mut i: usize = 0;
        while i < self.units.len()
            invariant
                i <= self.units.len(),
                self.units@.len() == before.len(),
                self.state == old(self).state,
                self.started_at == old(self).started_at,
                self.aggregator == old(self).aggregator,
                forall|j: int| 0 <= j < i ==> (#[trigger] self.units@[j])@ == expired_unit(before[j]),
                forall|j: int| i <= j < before.len() ==> (#[trigger] self.units@[j])@ == before[j],
            decreases self.units.len() - i,
        {
            let pending = match self.units[i].state {
                UnitState::Succeeded => false,
                UnitState::Failed => false,
                _ => true,
            };
            if pending {
                let Unit { target, state: _, records, failure: _, answered_by } = self.units.remove(
                    i,
                );
                self.units.insert(
                    i,
                    Unit {
                        target,
                        state: UnitState::Failed,
                        records,
                        failure: Some(Error::Transient(String::from_str("cycle timed out"))),
                        answered_by,
                    },
                );
            }
            i += 1;
        }
        assert(unit_rows(self.units@) =~= before.map_values(|u: UnitRow| expired_unit(u)));
    }

    /// What a dashboard shows of the units, one row for each unit: `found` holds, place by
    /// place, the versions that were counted for the units.
    pub fn stats(&self, found: &Vec<usize>) -> (out: Vec<UnitStat>)
        ensures
            stat_rows(out@) == stats_of(self.units(), found@),
            out@.len() == self.units().len(),
    {
        let mut out: Vec<UnitStat> = Vec::new();
        let mut i: usize = 0;
        while i < self.units.len()
            invariant
                i <= self.units.len(),
                out@.len() == i,
                forall|j: int|
                    0 <= j < i ==> (#[trigger] out@[j])@ == stat_of(
                        self.units@[j]@,
                        count_at(found@, j),
                    ),
            decreases self.units.len() - i,
        {
            let unit = &self.units[i];
            let active = match unit.state {
                UnitState::Succeeded => true,
                _ => false,
            };
            let counted = if i < found.len() {
                found[i]
            } else {
                0
            };
            let version_count = if active {
                counted
            } else {
                0
            };
            let error_message = match unit.state {
                UnitState::Failed => Some(
                    match &unit.failure {
                        Some(e) => e.message(),
                        None => String::new(),
                    },
                ),
                _ => None,
            };
            out.push(
                UnitStat {
                    name: unit.target.clone(),
                    active,
                    version_count,
                    volume: Volume::of(version_count),
                    error_message,
                },
            );
            i += 1;
        }
        assert(stat_rows(out@) =~= stats_of(self.units(), found@));
        out
    }

    /// Whether every unit has ended.
    pub fn all_units_ended(&self) -> (ended_all: bool)
        ensures
            ended_all == all_ended(self.units()),
    {
        let mut i: usize = 0;
        while i < self.units.len()
            invariant
                i <= self.units.len(),
                forall|j: int| 0 <= j < i ==> ended((#[trigger] unit_rows(self.units@)[j]).state),
            decreases self.units.len() - i,
        {
            match self.units[i].state {
                UnitState::Succeeded => {},
                UnitState::Failed => {},
                _ => {
                    assert(!ended(unit_rows(self.units@)[i as int].state));
                    return false;
                },
            }
            i += 1;
        }
        true
    }

    /// Ends a running cycle once every unit has ended: the cycle is completed where no
    /// unit failed and partially completed otherwise, the tables of the units that
    /// succeeded are merged, and the failed targets are listed with their reasons. A cycle
    /// that is not running, or has a unit that has not ended, stays as it is and gives no
    /// outcome.
    pub fn finish(&mut self, now: u64) -> (outcome: Option<CollectionOutcome>)
        ensures
            final(self).units() == old(self).units(),
            final(self).suffix() == old(self).suffix(),
            final(self).started_at() == old(self).started_at(),
            outcome is Some == (old(self).state() == CycleState::Running && all_ended(
                old(self).units(),
            )),
            outcome is None ==> final(self).state() == old(self).state(),
            outcome matches Some(o) ==> {
                &&& final(self).state() == end_state(old(self).units())
                &&& o.state == end_state(old(self).units())
                &&& version_rows(o.records@) == merged(
                    tables_of(old(self).units()),
                    old(self).suffix(),
                )
                &&& pair_views(o.failures@) == failures_of(old(self).units())
                &&& answer_views(o.answers@) == answers_of(old(self).units())
                &&& o.answers@.len() + o.failures@.len() == o.targets_total
                &&& o.targets_total == old(self).units().len()
                &&& o.started_at == old(self).started_at()
                &&& o.finished_at == now
            },
    {
        if self.state != CycleState::Running {
            return None;
        }
        if !self.all_units_ended() {
            return None;
        }
        let ghost all = unit_rows(self.units@);
        proof {
            lemma_units_accounted(all);
        }
        let mut tables: Vec<Vec<SoftwareVersion>> = Vec::new();
        let mut failures: Vec<(String, String)> = Vec::new();
        let mut answers: Vec<(String, usize)> = Vec::new();
        let mut i: usize = 0;
        assert(all.take(0) =~= Seq::<UnitRow>::empty());
        assert(answer_views(answers@) =~= Seq::<(Seq<char>, usize)>::empty());
        assert(table_views(tables@) =~= Seq::<Seq<VersionRow>>::empty());
        assert(pair_views(failures@) =~= Seq::<(Seq<char>, Seq<char>)>::empty());
        while i < self.units.len()
            invariant
                i <= self.units.len(),
                all == unit_rows(self.units@),
                table_views(tables@) == tables_of(all.take(i as int)),
                pair_views(failures@) == failures_of(all.take(i as int)),
                answer_views(answers@) == answers_of(all.take(i as int)),
            decreases self.units.len() - i,
        {
            assert(all.take(i + 1).drop_last() =~= all.take(i as int));
            assert(all.take(i + 1).last() == self.units@[i as int]@);
            let unit = &self.units[i];
            match unit.state {
                UnitState::Succeeded => {
                    let ghost before = table_views(tables@);
                    tables.push(clone_records(&unit.records));
                    assert(table_views(tables@) =~= before.push(version_rows(unit.records@)));
                    let ghost answered = answer_views(answers@);
                    let position = match unit.answered_by {
                        Some(position) => position,
                        None => 0,
                    };
                    answers.push((unit.target.clone(), position));
                    assert(answer_views(answers@) =~= answered.push(
                        (unit@.target, answered_position(unit@)),
                    ));
                },
                UnitState::Failed => {
                    let ghost before = pair_views(failures@);
                    let reason = match &unit.failure {
                        Some(e) => e.message(),
                        None => String::new(),
                    };
                    failures.push((unit.target.clone(), reason));
                    assert(pair_views(failures@) =~= before.push((unit@.target, reason_of(unit@))));
                },
                _ => {},
            }
            i += 1;
        }
        assert(all.take(self.units.len() as int) =~= all);
        let state = if failures.len() == 0 {
            CycleState::Completed
        } else {
            CycleState::PartiallyCompleted
        };
        let records = self.aggregator.merge(&tables).into_rows();
        self.state = state;
        Some(
            CollectionOutcome {
                state,
                records,
                answers,
                failures,
                targets_total: self.units.len(),
                started_at: self.started_at,
                finished_at: now,
            },
        )
    }
}

} // verus!
