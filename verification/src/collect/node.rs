//! Node.js: the release index and the release schedule.

use vstd::prelude::*;
use crate::assoc::{entries, get, lookup};
use crate::collect::github::table_or_not_found;
use crate::domain::{cycles_outcome, rows, CycleRow, ProductCycle};
use crate::error::{Error, Failure};
use crate::text::{join, split_on, split_spec, trim_leading, views, without_leading};

verus! {

pub const NODE_RELEASES_URL: &'static str = "https://nodejs.org/dist/index.json";

pub const NODE_SCHEDULE_URL: &'static str =
    "https://raw.githubusercontent.com/nodejs/release/main/schedule.json";

/// One entry of the release index: the version, the day of the release, and whether the
/// release belongs to a long-term-support line.
#[derive(Debug, PartialEq, Eq)]
pub struct NodeRelease {
    pub version: String,
    pub date: i32,
    pub lts: bool,
}

/// A [`NodeRelease`] as plain values.
pub struct NodeRow {
    pub version: Seq<char>,
    pub date: i32,
    pub lts: bool,
}

impl View for NodeRelease {
    type V = NodeRow;

    open spec fn view(&self) -> NodeRow {
        NodeRow { version: self.version@, date: self.date, lts: self.lts }
    }
}

/// The views of releases.
pub open spec fn node_rows(releases: Seq<NodeRelease>) -> Seq<NodeRow> {
    releases.map_values(|r: NodeRelease| r@)
}

/// The name under which the schedule lists the line of a version: `v` and the major
/// number.
pub open spec fn schedule_key(version: Seq<char>) -> Seq<char> {
    "v"@ + split_spec(version, '.')[0]
}

/// The cycle of a release: its version without leading `v`s, and the end of its line as
/// the schedule gives it.
pub open spec fn node_cycle(release: NodeRow, schedule: Seq<(Seq<char>, i32)>) -> CycleRow {
    let version = without_leading(release.version, 'v');
    CycleRow {
        name: version,
        release_date: Some(release.date),
        eol_date: lookup(schedule, schedule_key(version)),
        lts: release.lts,
    }
}

/// The cycles of the releases, in order; `NotFound` where there is no release.
pub open spec fn node_cycles(releases: Seq<NodeRow>, schedule: Seq<(Seq<char>, i32)>) -> Result<
    Seq<CycleRow>,
    Failure,
> {
    table_or_not_found(Seq::new(releases.len(), |i: int| node_cycle(releases[i], schedule)))
}

/// Collects the versions of Node.js.
#[derive(Debug)]
pub struct NodeCollector {
    name: String,
}

impl NodeCollector {
    /// The name of the product that this collector reports under.
    pub closed spec fn label(&self) -> Seq<char> {
        self.name@
    }

    pub fn new(name: &str) -> (collector: Self)
        ensures
            collector.label() == name@,
    {
        Self { name: String::from_str(name) }
    }

    pub fn name(&self) -> (name: &str)
        ensures
            name@ == self.label(),
    {
        self.name.as_str()
    }

    /// The index to fetch.
    pub fn releases_url(&self) -> (url: &'static str)
        ensures
            url@ == NODE_RELEASES_URL@,
    {
        NODE_RELEASES_URL
    }

    /// The schedule to fetch.
    pub fn schedule_url(&self) -> (url: &'static str)
        ensures
            url@ == NODE_SCHEDULE_URL@,
    {
        NODE_SCHEDULE_URL
    }

    /// Makes the cycle of one release.
    pub fn cycle(release: &NodeRelease, schedule: &Vec<(String, i32)>) -> (cycle: ProductCycle)
        ensures
            cycle@ == node_cycle(release@, entries(schedule@)),
    {
        let version = trim_leading(release.version.as_str(), 'v');
        let parts = split_on(version, '.');
        assert(views(parts@)[0] == parts@[0]@);
        let key = join("v", parts[0].as_str());
        ProductCycle {
            name: String::from_str(version),
            release_date: Some(release.date),
            eol_date: get(schedule, key.as_str()),
            lts: release.lts,
        }
    }

    /// Makes the cycles of the releases; no release is `NotFound`.
    pub fn cycles(releases: &Vec<NodeRelease>, schedule: &Vec<(String, i32)>) -> (out: Result<
        Vec<ProductCycle>,
        Error,
    >)
        ensures
            cycles_outcome(out) == node_cycles(node_rows(releases@), entries(schedule@)),
    {
        let mut cycles: Vec<ProductCycle> = Vec::new();
        let mut i: usize = 0;
        while i < releases.len()
            invariant
                i <= releases.len(),
                cycles@.len() == i,
                forall|j: int|
                    0 <= j < i ==> (#[trigger] cycles@[j])@ == node_cycle(
                        releases@[j]@,
                        entries(schedule@),
                    ),
            decreases releases.len() - i,
        {
            cycles.push(Self::cycle(&releases[i], schedule));
            i += 1;
        }
        assert(rows(cycles@) =~= Seq::new(
            releases@.len(),
            |i: int| node_cycle(node_rows(releases@)[i], entries(schedule@)),
        ));
        if cycles.len() == 0 {
            Err(Error::NotFound)
        } else {
            Ok(cycles)
        }
    }
}

} // verus!
