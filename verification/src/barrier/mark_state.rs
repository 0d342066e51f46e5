//! Mark epoch: monotonically-increasing counter for GC cycles.
use vstd::prelude::*;

verus! {

/// Tracks the current mark epoch.
pub struct MarkEpoch {
    current: u64,
}

impl View for MarkEpoch {
    type V = u64;

    closed spec fn view(&self) -> u64 {
        self.current
    }
}

impl MarkEpoch {
    /// Create a new epoch counter at zero.
    pub fn new() -> (r: MarkEpoch)
        ensures
            r@ == 0,
    {
        MarkEpoch { current: 0 }
    }

    /// Current epoch value.
    pub fn current(&self) -> (r: u64)
        ensures
            r == self@,
    {
        self.current
    }

    /// Advance to the next epoch and return it.
    pub fn advance(&mut self) -> (r: u64)
        requires
            old(self)@ < u64::MAX,
        ensures
            r == old(self)@ + 1,
            final(self)@ == r,
    {
        self.current = self.current + 1;
        self.current
    }

    /// Whether `epoch` is older than the current one.
    pub fn is_stale(&self, epoch: u64) -> (r: bool)
        ensures
            r == (epoch < self@),
    {
        epoch < self.current
    }
}

impl Default for MarkEpoch {
    fn default() -> (r: MarkEpoch)
        ensures
            r@ == 0,
    {
        MarkEpoch::new()
    }
}

/// Every epoch up to the current one is stale once the counter advances:
/// the counter only moves forward.
pub proof fn law_advance_stales(before: u64, after: u64, e: u64)
    requires
        before < u64::MAX,
        after == before + 1,
        e <= before,
    ensures
        e < after,
        before < after,
{
}

} // verus!
