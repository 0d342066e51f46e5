//! Single hazard slot.
use vstd::prelude::*;

verus! {

/// A hazard slot: a published address (0 when none) and an active flag.
pub struct HazardSlot {
    ptr: usize,
    active: bool,
}

impl View for HazardSlot {
    type V = (usize, bool);

    /// The published address and whether the slot is active.
    closed spec fn view(&self) -> (usize, bool) {
        (self.ptr, self.active)
    }
}

impl HazardSlot {
    /// An inactive slot with no address.
    pub fn new() -> (r: HazardSlot)
        ensures
            r@ == (0usize, false),
    {
        HazardSlot { ptr: 0, active: false }
    }

    /// Whether the slot is active.
    pub fn is_active(&self) -> (r: bool)
        ensures
            r == self@.1,
    {
        self.active
    }

    /// The published address.
    pub fn get(&self) -> (r: usize)
        ensures
            r == self@.0,
    {
        self.ptr
    }

    /// Publish address `p` and activate the slot.
    pub fn publish(&mut self, p: usize)
        ensures
            final(self)@ == (p, true),
    {
        self.ptr = p;
        self.active = true;
    }

    /// Clear the address and deactivate the slot.
    pub fn clear(&mut self)
        ensures
            final(self)@ == (0usize, false),
    {
        self.ptr = 0;
        self.active = false;
    }
}

impl Default for HazardSlot {
    fn default() -> (r: HazardSlot)
        ensures
            r@ == (0usize, false),
    {
        HazardSlot::new()
    }
}

} // verus!
