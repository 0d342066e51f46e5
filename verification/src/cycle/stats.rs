//! Cycle detector statistics.
use crate::colored::ColoredPtr;
use vstd::prelude::*;

verus! {

/// One candidate for cycle detection.
#[derive(Debug, Clone, Copy, PartialEq, Eq, Structural)]
pub struct CycleCandidate {
    /// The object under test.
    pub object: ColoredPtr,
    /// Associated weak ref id.
    pub weak_ref: u32,
}

/// Aggregate statistics from a cycle detection pass.
#[derive(Debug, Clone, Copy, PartialEq, Eq, Structural)]
pub struct CycleStats {
    /// Number of candidates seen.
    pub candidates: u32,
    /// Number actually reclaimed.
    pub reclaimed: u32,
}

impl CycleStats {
    /// Construct zeroed stats.
    pub fn new() -> (r: CycleStats)
        ensures
            r == (CycleStats { candidates: 0, reclaimed: 0 }),
    {
        CycleStats { candidates: 0, reclaimed: 0 }
    }
}

impl Default for CycleStats {
    fn default() -> (r: CycleStats)
        ensures
            r == (CycleStats { candidates: 0, reclaimed: 0 }),
    {
        CycleStats::new()
    }
}

} // verus!
