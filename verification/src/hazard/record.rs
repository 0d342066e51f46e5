//! Multi-slot hazard record.
use crate::hazard::slot::HazardSlot;
use vstd::prelude::*;

verus! {

/// Number of slots in a record.
pub const MAX_SLOTS: usize = 16;

/// Record of multiple hazard slots.
pub struct HazardRecord {
    slots: Vec<HazardSlot>,
    count: usize,
}

impl View for HazardRecord {
    type V = Seq<(usize, bool)>;

    /// Each slot's published address and active flag, by index.
    closed spec fn view(&self) -> Seq<(usize, bool)> {
        Seq::new(self.slots@.len(), |i: int| self.slots@[i]@)
    }
}

impl HazardRecord {
    /// Internal consistency: `MAX_SLOTS` slots.
    pub closed spec fn wf(&self) -> bool {
        self.slots@.len() == MAX_SLOTS
    }

    /// Construct a record of inactive slots.
    pub fn new() -> (r: HazardRecord)
        ensures
            r.wf(),
            r@ == Seq::new(MAX_SLOTS as nat, |i: int| (0usize, false)),
    {
        let mut slots: Vec<HazardSlot> = Vec::new();
        while slots.len() < MAX_SLOTS
            invariant
                slots@.len() <= MAX_SLOTS,
                forall|i: int| 0 <= i < slots@.len() ==> slots@[i]@ == (0usize, false),
            decreases MAX_SLOTS - slots@.len(),
        {
            slots.push(HazardSlot::new());
        }
        let r = HazardRecord { slots, count: MAX_SLOTS };
        assert(r@ =~= Seq::new(MAX_SLOTS as nat, |i: int| (0usize, false)));
        r
    }

    /// Whether any slot is active.
    pub fn any_active(&self) -> (r: bool)
        requires
            self.wf(),
        ensures
            r == exists|i: int| 0 <= i < MAX_SLOTS && self@[i].1,
    {
        let mut i: usize = 0;
        while i < self.slots.len()
            invariant
                self.wf(),
                i <= MAX_SLOTS,
                forall|j: int| 0 <= j < i ==> !self@[j].1,
            decreases MAX_SLOTS - i,
        {
            if self.slots[i].is_active() {
                assert(self@[i as int].1);
                return true;
            }
            i = i + 1;
        }
        false
    }

    /// Whether the slot at `idx` is active.
    pub fn is_active(&self, idx: usize) -> (r: bool)
        requires
            self.wf(),
        ensures
            r == (idx < MAX_SLOTS && self@[idx as int].1),
    {
        idx < self.slots.len() && self.slots[idx].is_active()
    }

    /// Publish address `p` to slot `idx` (ignored if out of range).
    pub fn publish(&mut self, idx: usize, p: usize)
        requires
            old(self).wf(),
        ensures
            final(self).wf(),
            idx < MAX_SLOTS ==> final(self)@ == old(self)@.update(idx as int, (p, true)),
            idx >= MAX_SLOTS ==> final(self)@ == old(self)@,
    {
        if idx < self.slots.len() {
            self.slots[idx].publish(p);
            assert(self@ =~= old(self)@.update(idx as int, (p, true)));
        }
    }

    /// Clear slot `idx` (ignored if out of range).
    pub fn clear(&mut self, idx: usize)
        requires
            old(self).wf(),
        ensures
            final(self).wf(),
            idx < MAX_SLOTS ==> final(self)@ == old(self)@.update(idx as int, (0usize, false)),
            idx >= MAX_SLOTS ==> final(self)@ == old(self)@,
    {
        if idx < self.slots.len() {
            self.slots[idx].clear();
            assert(self@ =~= old(self)@.update(idx as int, (0usize, false)));
        }
    }

    /// Clear all slots.
    pub fn clear_all(&mut self)
        requires
            old(self).wf(),
        ensures
            final(self).wf(),
            final(self)@ == Seq::new(MAX_SLOTS as nat, |i: int| (0usize, false)),
    {
        let mut i: usize = 0;
        while i < self.slots.len()
            invariant
                self.wf(),
                i <= MAX_SLOTS,
                forall|j: int| 0 <= j < i ==> self@[j] == (0usize, false),
            decreases MAX_SLOTS - i,
        {
            let ghost prev = self@;
            self.slots[i].clear();
            assert(self@ =~= prev.update(i as int, (0usize, false)));
            i = i + 1;
        }
        assert(self@ =~= Seq::new(MAX_SLOTS as nat, |i: int| (0usize, false)));
    }
}

impl Default for HazardRecord {
    fn default() -> (r: HazardRecord)
        ensures
            r.wf(),
            r@ == Seq::new(MAX_SLOTS as nat, |i: int| (0usize, false)),
    {
        HazardRecord::new()
    }
}

} // verus!
