//! Pressure threshold: tracks bytes allocated since the last GC cycle.
//!
//! When allocations cross a configurable fraction of the heap, the runtime
//! schedules a new mark cycle.
use crate::arith::{signed_diff, signed_diff_fits, wrap_i64};
use vstd::prelude::*;

verus! {

/// Pressure threshold configuration.
#[derive(Debug, Clone, Copy, PartialEq, Eq, Structural)]
pub struct PressureConfig {
    /// Total heap size in bytes.
    pub heap_bytes: u64,
    /// Trigger when allocated bytes cross this percentage of heap_bytes.
    pub trigger_ratio: u32,
    /// Minimum interval (cycles) between triggers.
    pub min_interval: u32,
}

/// The byte count at which a configuration triggers.
pub open spec fn trigger_bytes_spec(c: PressureConfig) -> int {
    c.heap_bytes * c.trigger_ratio / 100
}

impl PressureConfig {
    /// Default: trigger at 80% full, no interval guard.
    pub fn default_for(heap_bytes: u64) -> (r: PressureConfig)
        ensures
            r == (PressureConfig { heap_bytes, trigger_ratio: 80, min_interval: 0 }),
    {
        PressureConfig { heap_bytes, trigger_ratio: 80, min_interval: 0 }
    }

    /// Bytes at which the trigger fires: `heap_bytes * trigger_ratio / 100`.
    pub fn trigger_bytes(&self) -> (r: u64)
        requires
            self.heap_bytes * self.trigger_ratio <= u64::MAX,
        ensures
            r == trigger_bytes_spec(*self),
    {
        (self.heap_bytes * self.trigger_ratio as u64) / 100
    }
}

/// Allocation counter. Monotonic between cycles.
#[derive(Debug, Clone, Copy, Default, PartialEq, Eq, Structural)]
pub struct PressureMeter {
    pub allocated: u64,
    pub freed: u64,
    pub cycles: u32,
}

/// `a + b`, saturating at `u64::MAX`.
pub open spec fn sat_add(a: u64, b: u64) -> u64 {
    if a + b > u64::MAX {
        u64::MAX
    } else {
        (a + b) as u64
    }
}

impl PressureMeter {
    /// Create a fresh meter.
    pub fn new() -> (r: PressureMeter)
        ensures
            r == (PressureMeter { allocated: 0, freed: 0, cycles: 0 }),
    {
        PressureMeter { allocated: 0, freed: 0, cycles: 0 }
    }

    /// Record an allocation (saturating).
    pub fn record_alloc(&mut self, bytes: u64)
        ensures
            *final(self) == (PressureMeter {
                allocated: sat_add(old(self).allocated, bytes),
                ..*old(self)
            }),
    {
        self.allocated = self.allocated.saturating_add(bytes);
    }

    /// Record a free (sweep) event (saturating).
    pub fn record_free(&mut self, bytes: u64)
        ensures
            *final(self) == (PressureMeter { freed: sat_add(old(self).freed, bytes), ..*old(self) }),
    {
        self.freed = self.freed.saturating_add(bytes);
    }

    /// Mark the end of a GC cycle: count it (saturating) and reset the
    /// allocation counter; freed bytes are cumulative.
    pub fn end_cycle(&mut self)
        ensures
            final(self).cycles == (if old(self).cycles == u32::MAX {
                u32::MAX
            } else {
                (old(self).cycles + 1) as u32
            }),
            final(self).allocated == 0,
            final(self).freed == old(self).freed,
    {
        self.cycles = self.cycles.saturating_add(1);
        self.allocated = 0;
    }

    /// Live bytes (allocated - freed), each taken as a signed 64-bit value.
    pub fn live(&self) -> (r: i64)
        requires
            signed_diff_fits(self.allocated, self.freed),
        ensures
            r == signed_diff(self.allocated, self.freed),
    {
        wrap_i64(self.allocated) - wrap_i64(self.freed)
    }
}

} // verus!
