//! GC trigger: decides when to start a new cycle based on pressure.
//!
//! - Trigger when `meter.allocated >= config.trigger_bytes()`.
//! - Respect `min_interval` between triggers.
use crate::pressure::threshold::{PressureConfig, PressureMeter, trigger_bytes_spec};
use vstd::prelude::*;

verus! {

/// Trigger state.
#[derive(Debug, Clone, Copy, Default, PartialEq, Eq, Structural)]
pub struct GcTrigger {
    last_trigger_cycle: u32,
}

/// The trigger decision for a trigger last fired at cycle `last`: quiet
/// within the minimum interval, else high pressure, or a first cycle not yet
/// seen while some allocation has happened.
pub open spec fn should_trigger_spec(
    last: u32,
    config: PressureConfig,
    meter: PressureMeter,
    current_cycle: u32,
) -> bool {
    if current_cycle - last < config.min_interval {
        false
    } else {
        meter.allocated >= trigger_bytes_spec(config) || (meter.cycles == 0 && meter.allocated
            > 0)
    }
}

impl GcTrigger {
    /// The cycle at which the trigger last fired.
    pub closed spec fn last_cycle(self) -> u32 {
        self.last_trigger_cycle
    }

    /// Create a fresh trigger.
    pub fn new() -> (r: GcTrigger)
        ensures
            r.last_cycle() == 0,
    {
        GcTrigger { last_trigger_cycle: 0 }
    }

    /// Decide whether to start a new cycle. Never within `min_interval`
    /// cycles of the last trigger; otherwise `true` if pressure is high
    /// enough (at least the trigger bytes allocated) or the meter has not
    /// yet seen a cycle and allocation has happened.
    pub fn should_trigger(
        &self,
        config: &PressureConfig,
        meter: &PressureMeter,
        current_cycle: u32,
    ) -> (r: bool)
        requires
            current_cycle >= self.last_cycle(),
            config.heap_bytes * config.trigger_ratio <= u64::MAX,
        ensures
            r == should_trigger_spec(self.last_cycle(), *config, *meter, current_cycle),
    {
        if current_cycle - self.last_trigger_cycle < config.min_interval {
            return false;
        }
        meter.allocated >= config.trigger_bytes() || (meter.cycles == 0 && meter.allocated > 0)
    }

    /// Mark a trigger as having fired.
    pub fn mark_triggered(&mut self, cycle: u32)
        ensures
            final(self).last_cycle() == cycle,
    {
        self.last_trigger_cycle = cycle;
    }
}

/// Right after firing at cycle `c`, a trigger with a positive minimum
/// interval stays quiet at cycle `c`, whatever the pressure.
pub proof fn law_interval_guard(c: u32, config: PressureConfig, meter: PressureMeter)
    requires
        config.min_interval > 0,
    ensures
        !should_trigger_spec(c, config, meter, c),
{
}

} // verus!
