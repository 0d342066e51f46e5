//! Collection trigger: decide when to start a new GC cycle.
use vstd::prelude::*;

verus! {

/// Collection trigger decision.
#[derive(Debug, Clone, Copy, PartialEq, Eq, Structural)]
pub enum Trigger {
    /// No collection needed.
    NotNeeded,
    /// Trigger because the heap is full.
    Full,
    /// Trigger because high-watermark is exceeded.
    High,
    /// Trigger because too many objects were promoted.
    Promotion,
    /// Trigger after a certain number of allocations.
    Allocation,
}

/// The decision for the given inputs, in priority order: a full heap, a
/// crossed high watermark, too many promotions, too many allocations.
pub open spec fn decide_spec(
    max_capacity: u64,
    used: u64,
    above_high_watermark: bool,
    promotion_count: u32,
    promotion_threshold: u32,
    alloc_count: u32,
    alloc_threshold: u32,
) -> Trigger {
    if max_capacity > 0 && used >= max_capacity {
        Trigger::Full
    } else if above_high_watermark {
        Trigger::High
    } else if promotion_count >= promotion_threshold {
        Trigger::Promotion
    } else if alloc_count >= alloc_threshold {
        Trigger::Allocation
    } else {
        Trigger::NotNeeded
    }
}

/// Decide whether a collection should be triggered. `above_high_watermark`
/// is whether usage exceeds the high-watermark fraction of the capacity
/// (a floating-point comparison the caller makes).
pub fn decide(
    max_capacity: u64,
    used: u64,
    above_high_watermark: bool,
    promotion_count: u32,
    promotion_threshold: u32,
    alloc_count: u32,
    alloc_threshold: u32,
) -> (r: Trigger)
    ensures
        r == decide_spec(
            max_capacity,
            used,
            above_high_watermark,
            promotion_count,
            promotion_threshold,
            alloc_count,
            alloc_threshold,
        ),
{
    if max_capacity > 0 && used >= max_capacity {
        return Trigger::Full;
    }
    if above_high_watermark {
        return Trigger::High;
    }
    if promotion_count >= promotion_threshold {
        return Trigger::Promotion;
    }
    if alloc_count >= alloc_threshold {
        return Trigger::Allocation;
    }
    Trigger::NotNeeded
}

/// A full heap always triggers a full collection, whatever the counters.
pub proof fn law_full_wins(
    max_capacity: u64,
    used: u64,
    high: bool,
    pc: u32,
    pt: u32,
    ac: u32,
    at: u32,
)
    requires
        max_capacity > 0,
        used >= max_capacity,
    ensures
        decide_spec(max_capacity, used, high, pc, pt, ac, at) == Trigger::Full,
{
}

} // verus!
