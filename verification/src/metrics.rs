//! What a dashboard shows of a run, as far as it is counted in whole numbers.

use vstd::prelude::*;

verus! {

/// How much a collector delivered.
#[derive(Debug, Clone, Copy, PartialEq, Eq, Structural)]
pub enum Volume {
    NoData,
    Low,
    Medium,
    High,
    VeryHigh,
}

/// The volume of a number of versions: none, up to 10, up to 50, up to 200, more.
pub open spec fn volume_of(versions: nat) -> Volume {
    if versions == 0 {
        Volume::NoData
    } else if versions <= 10 {
        Volume::Low
    } else if versions <= 50 {
        Volume::Medium
    } else if versions <= 200 {
        Volume::High
    } else {
        Volume::VeryHigh
    }
}

/// The words for a volume.
pub open spec fn volume_words(volume: Volume) -> Seq<char> {
    match volume {
        Volume::NoData => "No Data"@,
        Volume::Low => "Low Volume"@,
        Volume::Medium => "Medium Volume"@,
        Volume::High => "High Volume"@,
        Volume::VeryHigh => "Very High Volume"@,
    }
}

impl Volume {
    /// Grades a number of versions.
    pub fn of(versions: usize) -> (volume: Volume)
        ensures
            volume == volume_of(versions as nat),
    {
        if versions == 0 {
            Volume::NoData
        } else if versions <= 10 {
            Volume::Low
        } else if versions <= 50 {
            Volume::Medium
        } else if versions <= 200 {
            Volume::High
        } else {
            Volume::VeryHigh
        }
    }

    /// The words for this volume.
    pub fn label(&self) -> (words: &'static str)
        ensures
            words@ == volume_words(*self),
    {
        match self {
            Volume::NoData => "No Data",
            Volume::Low => "Low Volume",
            Volume::Medium => "Medium Volume",
            Volume::High => "High Volume",
            Volume::VeryHigh => "Very High Volume",
        }
    }
}

/// The words in which the volume of a number of versions is shown.
pub fn performance_category(versions: usize) -> (words: &'static str)
    ensures
        words@ == volume_words(volume_of(versions as nat)),
{
    Volume::of(versions).label()
}

} // verus!
