//! Cycle budget: time limit per GC phase.
//!
//! The GC checks the budget at safe points during each phase. If the
//! budget is exceeded, the GC yields and resumes on the next cycle.
pub mod clock;

use crate::budget::clock::{Instant, elapsed_spec};
use vstd::prelude::*;

verus! {

/// Per-phase budget configuration (in milliseconds).
#[derive(Debug, Clone, Copy, PartialEq, Eq, Structural)]
pub struct CycleBudget {
    /// Maximum time for the mark phase.
    pub mark_ms: u64,
    /// Maximum time for the sweep phase.
    pub sweep_ms: u64,
    /// Maximum time for the relocation phase.
    pub relocate_ms: u64,
    /// Maximum time for the remap phase.
    pub remap_ms: u64,
}

impl CycleBudget {
    /// Default budgets: 5 ms per phase (very conservative for soft real-time).
    pub fn default_soft() -> (r: CycleBudget)
        ensures
            r == (CycleBudget { mark_ms: 5, sweep_ms: 5, relocate_ms: 5, remap_ms: 5 }),
    {
        CycleBudget { mark_ms: 5, sweep_ms: 5, relocate_ms: 5, remap_ms: 5 }
    }

    /// Generous budgets for non-real-time use.
    pub fn default_generous() -> (r: CycleBudget)
        ensures
            r == (CycleBudget { mark_ms: 50, sweep_ms: 20, relocate_ms: 50, remap_ms: 10 }),
    {
        CycleBudget { mark_ms: 50, sweep_ms: 20, relocate_ms: 50, remap_ms: 10 }
    }

    /// No budgets (unbounded).
    pub fn unbounded() -> (r: CycleBudget)
        ensures
            r == (CycleBudget {
                mark_ms: u64::MAX,
                sweep_ms: u64::MAX,
                relocate_ms: u64::MAX,
                remap_ms: u64::MAX,
            }),
    {
        CycleBudget {
            mark_ms: u64::MAX,
            sweep_ms: u64::MAX,
            relocate_ms: u64::MAX,
            remap_ms: u64::MAX,
        }
    }
}

/// Cycle budget tracker: records start time and checks expiration.
pub struct BudgetTracker {
    budget: CycleBudget,
    start: Instant,
    elapsed: u64,
}

impl BudgetTracker {
    /// The configured budgets.
    pub closed spec fn spec_budget(&self) -> CycleBudget {
        self.budget
    }

    /// The start of the current window.
    pub closed spec fn spec_start(&self) -> Instant {
        self.start
    }

    /// The elapsed time last recorded by `tick`.
    pub closed spec fn spec_elapsed(&self) -> u64 {
        self.elapsed
    }

    /// Begin a new budget window starting at `start`.
    pub fn new(budget: CycleBudget, start: Instant) -> (r: BudgetTracker)
        ensures
            r.spec_budget() == budget,
            r.spec_start() == start,
            r.spec_elapsed() == 0,
    {
        BudgetTracker { budget, start, elapsed: 0 }
    }

    /// Reset the start instant.
    pub fn reset(&mut self, start: Instant)
        ensures
            final(self).spec_budget() == old(self).spec_budget(),
            final(self).spec_start() == start,
            final(self).spec_elapsed() == 0,
    {
        self.start = start;
        self.elapsed = 0;
    }

    /// Update elapsed time to the time from the window start to `now`.
    pub fn tick(&mut self, now: Instant)
        ensures
            final(self).spec_budget() == old(self).spec_budget(),
            final(self).spec_start() == old(self).spec_start(),
            final(self).spec_elapsed() == elapsed_spec(
                old(self).spec_start().spec_ms(),
                now.spec_ms(),
            ),
    {
        self.elapsed = self.start.elapsed_ms(now);
    }

    /// Current elapsed ms.
    pub fn elapsed(&self) -> (r: u64)
        ensures
            r == self.spec_elapsed(),
    {
        self.elapsed
    }

    /// Whether the mark budget is exceeded.
    pub fn mark_exceeded(&self) -> (r: bool)
        ensures
            r == (self.spec_elapsed() > self.spec_budget().mark_ms),
    {
        self.elapsed > self.budget.mark_ms
    }

    /// Whether the sweep budget is exceeded.
    pub fn sweep_exceeded(&self) -> (r: bool)
        ensures
            r == (self.spec_elapsed() > self.spec_budget().sweep_ms),
    {
        self.elapsed > self.budget.sweep_ms
    }

    /// Whether the relocate budget is exceeded.
    pub fn relocate_exceeded(&self) -> (r: bool)
        ensures
            r == (self.spec_elapsed() > self.spec_budget().relocate_ms),
    {
        self.elapsed > self.budget.relocate_ms
    }

    /// Whether the remap budget is exceeded.
    pub fn remap_exceeded(&self) -> (r: bool)
        ensures
            r == (self.spec_elapsed() > self.spec_budget().remap_ms),
    {
        self.elapsed > self.budget.remap_ms
    }
}

/// An unbounded budget is never exceeded, whatever time has passed.
pub proof fn law_unbounded_never_exceeded(b: CycleBudget, elapsed: u64)
    requires
        b == (CycleBudget {
            mark_ms: u64::MAX,
            sweep_ms: u64::MAX,
            relocate_ms: u64::MAX,
            remap_ms: u64::MAX,
        }),
    ensures
        !(elapsed > b.mark_ms),
        !(elapsed > b.sweep_ms),
        !(elapsed > b.relocate_ms),
        !(elapsed > b.remap_ms),
{
}

} // verus!
