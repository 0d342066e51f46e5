//! GC statistics: counters for observability.
//!
//! These are monotonically increasing counters that can be sampled at any
//! time.
use crate::arith::{signed_diff, signed_diff_fits, wrap_i64};
use crate::colored::{Color, ColoredPtr, pack};
use crate::pressure::threshold::sat_add;
use vstd::prelude::*;

verus! {

/// Aggregate statistics across all GC cycles.
#[derive(Debug, Clone, Copy, Default, PartialEq, Eq, Structural)]
pub struct GcStats {
    /// Total bytes ever allocated.
    pub bytes_allocated: u64,
    /// Total bytes freed.
    pub bytes_freed: u64,
    /// Cumulative cycles completed.
    pub cycles: u64,
    /// Cumulative objects marked.
    pub objects_marked: u64,
    /// Cumulative objects relocated.
    pub objects_relocated: u64,
    /// Cumulative SATB barrier invocations.
    pub satb_invocations: u64,
    /// Cumulative ref-update invocations.
    pub ref_update_invocations: u64,
    /// Peak live bytes since process start.
    pub peak_live_bytes: u64,
}

impl GcStats {
    /// Construct zeroed stats.
    pub fn new() -> (r: GcStats)
        ensures
            r == (GcStats {
                bytes_allocated: 0,
                bytes_freed: 0,
                cycles: 0,
                objects_marked: 0,
                objects_relocated: 0,
                satb_invocations: 0,
                ref_update_invocations: 0,
                peak_live_bytes: 0,
            }),
    {
        GcStats {
            bytes_allocated: 0,
            bytes_freed: 0,
            cycles: 0,
            objects_marked: 0,
            objects_relocated: 0,
            satb_invocations: 0,
            ref_update_invocations: 0,
            peak_live_bytes: 0,
        }
    }

    /// Raise the peak live bytes to `current` if it is greater.
    pub fn update_peak(&mut self, current: u64)
        ensures
            *final(self) == (GcStats {
                peak_live_bytes: if current > old(self).peak_live_bytes {
                    current
                } else {
                    old(self).peak_live_bytes
                },
                ..*old(self)
            }),
            final(self).peak_live_bytes >= old(self).peak_live_bytes,
            final(self).peak_live_bytes >= current,
    {
        if current > self.peak_live_bytes {
            self.peak_live_bytes = current;
        }
    }

    /// Record an allocation (saturating).
    pub fn record_alloc(&mut self, bytes: u64)
        ensures
            *final(self) == (GcStats {
                bytes_allocated: sat_add(old(self).bytes_allocated, bytes),
                ..*old(self)
            }),
            final(self).bytes_allocated >= old(self).bytes_allocated,
    {
        self.bytes_allocated = self.bytes_allocated.saturating_add(bytes);
    }

    /// Record a free (saturating).
    pub fn record_free(&mut self, bytes: u64)
        ensures
            *final(self) == (GcStats {
                bytes_freed: sat_add(old(self).bytes_freed, bytes),
                ..*old(self)
            }),
            final(self).bytes_freed >= old(self).bytes_freed,
    {
        self.bytes_freed = self.bytes_freed.saturating_add(bytes);
    }

    /// Net live bytes (allocated - freed), each taken as a signed value.
    pub fn live_bytes(&self) -> (r: i64)
        requires
            signed_diff_fits(self.bytes_allocated, self.bytes_freed),
        ensures
            r == signed_diff(self.bytes_allocated, self.bytes_freed),
    {
        wrap_i64(self.bytes_allocated) - wrap_i64(self.bytes_freed)
    }
}

/// A colored pointer whose address is the allocated-byte count.
pub fn format_stats(stats: &GcStats) -> (r: ColoredPtr)
    ensures
        r.0 == pack(stats.bytes_allocated as usize, Color::White),
{
    ColoredPtr::new(stats.bytes_allocated as usize, Color::White)
}

} // verus!
