//! Pin registry: tracks all currently pinned objects.
//!
//! The GC consults this registry during relocation to skip pinned objects.
//! Pin counts are kept so a single object can be pinned multiple times.
//! The handle id is the slot index + 1 (0 = invalid).
use crate::colored::ColoredPtr;
use crate::error::RuntimeError;
use crate::pin::handle::{PinHandle, handle_from_id};
use vstd::prelude::*;

verus! {

/// Capacity of the registry.
pub const REGISTRY_CAP: usize = 256;

/// One entry in the pin registry; a count of 0 marks a free slot.
#[derive(Debug, Clone, Copy, PartialEq, Eq, Structural)]
pub struct PinEntry {
    pub ptr: ColoredPtr,
    pub count: u32,
}

/// Fixed-capacity registry of pinned objects.
pub struct PinRegistry {
    entries: Vec<PinEntry>,
    next_slot: usize,
}

/// Whether `p` has an entry with a positive count.
pub open spec fn pinned_in(e: Seq<PinEntry>, p: ColoredPtr) -> bool {
    exists|i: int| 0 <= i < e.len() && e[i].count > 0 && e[i].ptr == p
}

/// The first slot at or after `from` that pins `p`.
pub open spec fn slot_of(e: Seq<PinEntry>, p: ColoredPtr, from: int) -> Option<int>
    decreases e.len() - from,
{
    if from < 0 || from >= e.len() {
        None
    } else if e[from].count > 0 && e[from].ptr == p {
        Some(from)
    } else {
        slot_of(e, p, from + 1)
    }
}

/// The first free slot met when scanning `REGISTRY_CAP` slots cyclically
/// from `start`, skipping the first `k` of them.
pub open spec fn free_slot_from(e: Seq<PinEntry>, start: int, k: int) -> Option<int>
    decreases REGISTRY_CAP - k,
{
    if k < 0 || k >= REGISTRY_CAP {
        None
    } else if e[(start + k) % (REGISTRY_CAP as int)].count == 0 {
        Some((start + k) % (REGISTRY_CAP as int))
    } else {
        free_slot_from(e, start, k + 1)
    }
}

/// Number of entries with a positive count among the first `n`.
pub open spec fn active_upto(e: Seq<PinEntry>, n: int) -> nat
    decreases n,
{
    if n <= 0 {
        0
    } else {
        active_upto(e, n - 1) + if n - 1 < e.len() && e[n - 1].count > 0 {
            1nat
        } else {
            0nat
        }
    }
}

/// The entries after `unpin(handle)`, and what it returns.
pub open spec fn unpin_spec(e: Seq<PinEntry>, id: u32) -> (Seq<PinEntry>, bool) {
    let slot = id as int - 1;
    if id == 0 || slot >= REGISTRY_CAP || slot >= e.len() || e[slot].count == 0 {
        (e, false)
    } else if e[slot].count == 1 {
        (e.update(slot, PinEntry { ptr: ColoredPtr(0), count: 0 }), true)
    } else {
        (e.update(slot, PinEntry { ptr: e[slot].ptr, count: (e[slot].count - 1) as u32 }), false)
    }
}

/// The entries after a successful `pin(p)`, and the slot it used.
pub open spec fn pin_spec(e: Seq<PinEntry>, next: int, p: ColoredPtr) -> Option<(Seq<PinEntry>, int)> {
    match slot_of(e, p, 0) {
        Some(i) => Some((e.update(i, PinEntry { ptr: p, count: (e[i].count + 1) as u32 }), i)),
        None => match free_slot_from(e, next, 0) {
            Some(s) => Some((e.update(s, PinEntry { ptr: p, count: 1 }), s)),
            None => None,
        },
    }
}

impl View for PinRegistry {
    type V = Seq<PinEntry>;

    /// The registry slots, by index.
    closed spec fn view(&self) -> Seq<PinEntry> {
        self.entries@
    }
}

impl PinRegistry {
    /// Where the next search for a free slot starts.
    pub closed spec fn cursor(&self) -> int {
        self.next_slot as int
    }

    /// Internal consistency: `REGISTRY_CAP` slots, the cursor inside them,
    /// and no pointer pinned by two slots.
    pub closed spec fn wf(&self) -> bool {
        &&& self.entries@.len() == REGISTRY_CAP
        &&& self.next_slot < REGISTRY_CAP
        &&& distinct_pins(self.entries@)
    }

    /// Construct an empty registry.
    pub fn new() -> (r: PinRegistry)
        ensures
            r.wf(),
            r.cursor() == 0,
            r@ == Seq::new(REGISTRY_CAP as nat, |i: int| PinEntry { ptr: ColoredPtr(0), count: 0 }),
    {
        let mut entries: Vec<PinEntry> = Vec::new();
        while entries.len() < REGISTRY_CAP
            invariant
                entries@.len() <= REGISTRY_CAP,
                forall|i: int|
                    0 <= i < entries@.len() ==> entries@[i] == (PinEntry {
                        ptr: ColoredPtr(0),
                        count: 0,
                    }),
            decreases REGISTRY_CAP - entries@.len(),
        {
            entries.push(PinEntry { ptr: ColoredPtr(0), count: 0 });
        }
        let r = PinRegistry { entries, next_slot: 0 };
        assert(r@ =~= Seq::new(
            REGISTRY_CAP as nat,
            |i: int| PinEntry { ptr: ColoredPtr(0), count: 0 },
        ));
        r
    }
}

impl PinRegistry {
    /// Pin an object: bump the count of the slot that already pins it, or
    /// else take the first free slot scanning cyclically from the cursor
    /// (and move the cursor past it). Returns a handle whose id is the
    /// slot index + 1.
    ///
    /// # Errors
    ///
    /// Returns `OutOfMemory` if the object is not pinned and no slot is
    /// free.
    pub fn pin(&mut self, ptr: ColoredPtr) -> (r: Result<PinHandle, RuntimeError>)
        requires
            old(self).wf(),
            slot_of(old(self)@, ptr, 0) matches Some(i) ==> old(self)@[i].count < u32::MAX,
        ensures
            final(self).wf(),
            pin_spec(old(self)@, old(self).cursor(), ptr) matches Some((e, s)) ==> ({
                &&& r matches Ok(h) && h.spec_id() == s + 1
                &&& final(self)@ == e
                &&& final(self).cursor() == if slot_of(old(self)@, ptr, 0) is Some {
                    old(self).cursor()
                } else {
                    (s + 1) % (REGISTRY_CAP as int)
                }
            }),
            pin_spec(old(self)@, old(self).cursor(), ptr) is None ==> ({
                &&& r == Err::<PinHandle, RuntimeError>(RuntimeError::OutOfMemory)
                &&& final(self)@ == old(self)@
                &&& final(self).cursor() == old(self).cursor()
            }),
    {
        let mut i: usize = 0;
        while i < self.entries.len()
            invariant
                self.wf(),
                self@ == old(self)@,
                self.next_slot == old(self).next_slot,
                i <= REGISTRY_CAP,
                slot_of(old(self)@, ptr, 0) == slot_of(old(self)@, ptr, i as int),
                slot_of(old(self)@, ptr, 0) matches Some(j) ==> old(self)@[j].count < u32::MAX,
            decreases REGISTRY_CAP - i,
        {
            let e = self.entries[i];
            if e.count > 0 && e.ptr == ptr {
                self.entries.set(i, PinEntry { ptr: e.ptr, count: e.count + 1 });
                assert(distinct_pins(self@));
                return Ok(handle_from_id(i as u32 + 1));
            }
            i = i + 1;
        }
        proof {
            lemma_slot_of(old(self)@, ptr, 0);
        }
        let ghost start = self.next_slot as int;
        let mut k: usize = 0;
        while k < REGISTRY_CAP
            invariant
                self.wf(),
                self@ == old(self)@,
                start == old(self).next_slot,
                0 <= start < REGISTRY_CAP,
                k <= REGISTRY_CAP,
                self.next_slot == (start + k) % (REGISTRY_CAP as int),
                free_slot_from(old(self)@, start, 0) == free_slot_from(old(self)@, start, k as int),
                slot_of(old(self)@, ptr, 0) is None,
                !pinned_in(old(self)@, ptr),
            decreases REGISTRY_CAP - k,
        {
            let slot = self.next_slot % REGISTRY_CAP;
            assert(slot == self.next_slot) by {
                lemma_small_mod(self.next_slot as int);
            }
            self.next_slot = (self.next_slot + 1) % REGISTRY_CAP;
            proof {
                lemma_mod_step(start, k as int);
            }
            assert(slot as int == (start + k) % (REGISTRY_CAP as int));
            if self.entries[slot].count == 0 {
                assert(free_slot_from(old(self)@, start, k as int) == Some(slot as int));
                self.entries.set(slot, PinEntry { ptr, count: 1 });
                assert(distinct_pins(self@));
                return Ok(handle_from_id(slot as u32 + 1));
            }
            k = k + 1;
        }
        proof {
            lemma_mod_step(start, REGISTRY_CAP as int);
        }
        Err(RuntimeError::OutOfMemory)
    }

    /// Unpin an object. Returns true if the entry was fully released.
    pub fn unpin(&mut self, handle: PinHandle) -> (r: bool)
        requires
            old(self).wf(),
        ensures
            final(self).wf(),
            final(self).cursor() == old(self).cursor(),
            (final(self)@, r) == unpin_spec(old(self)@, handle.spec_id()),
    {
        if !handle.is_valid() {
            return false;
        }
        let slot = (handle.id() as usize).saturating_sub(1);
        if slot >= REGISTRY_CAP {
            return false;
        }
        let e = self.entries[slot];
        if e.count == 0 {
            return false;
        }
        let c = e.count - 1;
        if c == 0 {
            self.entries.set(slot, PinEntry { ptr: ColoredPtr(0), count: 0 });
            return true;
        }
        self.entries.set(slot, PinEntry { ptr: e.ptr, count: c });
        false
    }

    /// Whether the given pointer is currently pinned.
    pub fn is_pinned(&self, ptr: ColoredPtr) -> (r: bool)
        requires
            self.wf(),
        ensures
            r == pinned_in(self@, ptr),
    {
        let mut i: usize = 0;
        while i < self.entries.len()
            invariant
                self.wf(),
                i <= REGISTRY_CAP,
                forall|j: int| 0 <= j < i ==> !(self@[j].count > 0 && self@[j].ptr == ptr),
            decreases REGISTRY_CAP - i,
        {
            let e = self.entries[i];
            if e.count > 0 && e.ptr == ptr {
                return true;
            }
            i = i + 1;
        }
        false
    }

    /// Number of currently pinned objects.
    pub fn len(&self) -> (r: usize)
        requires
            self.wf(),
        ensures
            r == active_upto(self@, REGISTRY_CAP as int),
    {
        let mut n: usize = 0;
        let mut i: usize = 0;
        while i < self.entries.len()
            invariant
                self.wf(),
                i <= REGISTRY_CAP,
                n == active_upto(self@, i as int),
                n <= i,
            decreases REGISTRY_CAP - i,
        {
            if self.entries[i].count > 0 {
                n = n + 1;
            }
            i = i + 1;
        }
        n
    }

    /// Whether the registry has no pinned objects.
    pub fn is_empty(&self) -> (r: bool)
        requires
            self.wf(),
        ensures
            r == (active_upto(self@, REGISTRY_CAP as int) == 0),
    {
        self.len() == 0
    }
}

impl Default for PinRegistry {
    fn default() -> (r: PinRegistry)
        ensures
            r.wf(),
            r.cursor() == 0,
            r@ == Seq::new(REGISTRY_CAP as nat, |i: int| PinEntry { ptr: ColoredPtr(0), count: 0 }),
    {
        PinRegistry::new()
    }
}

/// Values below the capacity are their own remainder.
proof fn lemma_small_mod(x: int)
    requires
        0 <= x < REGISTRY_CAP,
    ensures
        x % (REGISTRY_CAP as int) == x,
{
}

/// Stepping a cyclic cursor by one.
proof fn lemma_mod_step(start: int, k: int)
    requires
        0 <= start < REGISTRY_CAP,
        0 <= k <= REGISTRY_CAP,
    ensures
        ((start + k) % (REGISTRY_CAP as int) + 1) % (REGISTRY_CAP as int) == (start + k + 1) % (
        REGISTRY_CAP as int),
        (start + k) % (REGISTRY_CAP as int) < REGISTRY_CAP,
        (start + REGISTRY_CAP) % (REGISTRY_CAP as int) == start,
{
}

/// What `slot_of` finds.
pub proof fn lemma_slot_of(e: Seq<PinEntry>, p: ColoredPtr, from: int)
    requires
        0 <= from,
    ensures
        slot_of(e, p, from) matches Some(i) ==> from <= i < e.len() && e[i].count > 0 && e[i].ptr
            == p,
        slot_of(e, p, from) is None ==> forall|j: int|
            from <= j < e.len() ==> !(e[j].count > 0 && e[j].ptr == p),
    decreases e.len() - from,
{
    if from < e.len() {
        lemma_slot_of(e, p, from + 1);
    }
}

/// What `free_slot_from` finds.
pub proof fn lemma_free_slot(e: Seq<PinEntry>, start: int, k: int)
    requires
        e.len() == REGISTRY_CAP,
        0 <= k,
    ensures
        free_slot_from(e, start, k) matches Some(s) ==> 0 <= s < REGISTRY_CAP && e[s].count == 0,
    decreases REGISTRY_CAP - k,
{
    if k < REGISTRY_CAP {
        lemma_free_slot(e, start, k + 1);
    }
}

/// A successful pin leaves the object pinned, by the slot it reports.
pub proof fn law_pin_pins(e: Seq<PinEntry>, next: int, p: ColoredPtr)
    requires
        e.len() == REGISTRY_CAP,
        slot_of(e, p, 0) matches Some(i) ==> e[i].count < u32::MAX,
        pin_spec(e, next, p) is Some,
    ensures
        ({
            let (e2, s) = pin_spec(e, next, p)->0;
            &&& 0 <= s < REGISTRY_CAP
            &&& e2[s].ptr == p && e2[s].count > 0
            &&& pinned_in(e2, p)
        }),
{
    lemma_slot_of(e, p, 0);
    lemma_free_slot(e, next, 0);
    let (e2, s) = pin_spec(e, next, p)->0;
    assert(e2[s].count > 0 && e2[s].ptr == p);
}

/// Unpinning with the handle a pin returned undoes that pin: afterwards
/// exactly the same pointers are pinned as before it.
pub proof fn law_pin_unpin(e: Seq<PinEntry>, next: int, p: ColoredPtr, q: ColoredPtr)
    requires
        e.len() == REGISTRY_CAP,
        distinct_pins(e),
        slot_of(e, p, 0) matches Some(i) ==> e[i].count < u32::MAX,
        pin_spec(e, next, p) is Some,
    ensures
        ({
            let (e2, s) = pin_spec(e, next, p)->0;
            pinned_in(unpin_spec(e2, (s + 1) as u32).0, q) == pinned_in(e, q)
        }),
{
    lemma_slot_of(e, p, 0);
    lemma_free_slot(e, next, 0);
    let (e2, s) = pin_spec(e, next, p)->0;
    let e3 = unpin_spec(e2, (s + 1) as u32).0;
    if slot_of(e, p, 0) is Some {
        assert(e3 =~= e);
    } else {
        assert forall|j: int| 0 <= j < e.len() implies (e3[j].count > 0 && e3[j].ptr == q) == (
        e[j].count > 0 && e[j].ptr == q) by {}
        if pinned_in(e, q) {
            let j = choose|j: int| 0 <= j < e.len() && e[j].count > 0 && e[j].ptr == q;
            assert(e3[j].count > 0 && e3[j].ptr == q);
        }
        if pinned_in(e3, q) {
            let j = choose|j: int| 0 <= j < e3.len() && e3[j].count > 0 && e3[j].ptr == q;
            assert(e[j].count > 0 && e[j].ptr == q);
        }
    }
}

/// Changing one slot changes the number of active slots only by whether
/// that slot becomes or stops being active.
pub proof fn lemma_active_update(e: Seq<PinEntry>, s: int, v: PinEntry, n: int)
    requires
        0 <= s < e.len(),
        0 <= n <= e.len(),
    ensures
        active_upto(e.update(s, v), n) == active_upto(e, n) - (if s < n && e[s].count > 0 {
            1int
        } else {
            0int
        }) + (if s < n && v.count > 0 {
            1int
        } else {
            0int
        }),
    decreases n,
{
    if n > 0 {
        lemma_active_update(e, s, v, n - 1);
    }
}

/// A pointer pinned by slot `s` is found there, and by no other slot.
pub proof fn lemma_pinned_at(e: Seq<PinEntry>, p: ColoredPtr, s: int)
    requires
        distinct_pins(e),
        0 <= s < e.len(),
        e[s].ptr == p,
        e[s].count > 0,
    ensures
        slot_of(e, p, 0) == Some(s),
{
    lemma_slot_of(e, p, 0);
    if slot_of(e, p, 0) is None {
        assert(!(e[s].count > 0 && e[s].ptr == p));
    }
}

/// Pinning an object that is already pinned (by slot `s`, so with the
/// handle `s + 1`) returns the same handle, bumps that slot's count and
/// leaves the number of pinned objects unchanged; the object stays pinned.
pub proof fn law_repin_same_handle(e: Seq<PinEntry>, next: int, p: ColoredPtr, s: int)
    requires
        e.len() == REGISTRY_CAP,
        distinct_pins(e),
        0 <= s < REGISTRY_CAP,
        e[s].ptr == p,
        0 < e[s].count < u32::MAX,
    ensures
        pin_spec(e, next, p) == Some(
            (e.update(s, PinEntry { ptr: p, count: (e[s].count + 1) as u32 }), s),
        ),
        active_upto((pin_spec(e, next, p)->0).0, REGISTRY_CAP as int) == active_upto(
            e,
            REGISTRY_CAP as int,
        ),
        pinned_in((pin_spec(e, next, p)->0).0, p),
        distinct_pins((pin_spec(e, next, p)->0).0),
{
    lemma_pinned_at(e, p, s);
    let v = PinEntry { ptr: p, count: (e[s].count + 1) as u32 };
    lemma_active_update(e, s, v, REGISTRY_CAP as int);
    assert(e.update(s, v)[s].count > 0);
}

/// The entries after `j` unpins with handle `id`.
pub open spec fn unpin_n(e: Seq<PinEntry>, id: u32, j: nat) -> Seq<PinEntry>
    decreases j,
{
    if j == 0 {
        e
    } else {
        unpin_spec(unpin_n(e, id, (j - 1) as nat), id).0
    }
}

/// While fewer unpins than pins have happened, the slot keeps the object
/// with the remaining count.
pub proof fn lemma_unpin_n(e: Seq<PinEntry>, p: ColoredPtr, s: int, j: nat)
    requires
        e.len() == REGISTRY_CAP,
        0 <= s < REGISTRY_CAP,
        e[s].ptr == p,
        j < e[s].count,
    ensures
        unpin_n(e, (s + 1) as u32, j) == e.update(s, PinEntry { ptr: p, count: (e[s].count - j) as u32 }),
    decreases j,
{
    if j == 0 {
        assert(e.update(s, PinEntry { ptr: p, count: e[s].count }) =~= e);
    } else {
        lemma_unpin_n(e, p, s, (j - 1) as nat);
        let f = e.update(s, PinEntry { ptr: p, count: (e[s].count - (j - 1)) as u32 });
        assert(unpin_spec(f, (s + 1) as u32).0 =~= e.update(
            s,
            PinEntry { ptr: p, count: (e[s].count - j) as u32 },
        ));
    }
}

/// After `k` pins with one handle (the slot's count is `k`), only the
/// `k`-th unpin releases the object: the `(j + 1)`-th unpin returns `true`
/// exactly when `j + 1 == k`; the object stays pinned, and the number of
/// pinned objects unchanged, until then, and that last unpin lowers the
/// number by one.
pub proof fn law_unpin_after_k_pins(e: Seq<PinEntry>, p: ColoredPtr, s: int, j: nat)
    requires
        e.len() == REGISTRY_CAP,
        distinct_pins(e),
        0 <= s < REGISTRY_CAP,
        e[s].ptr == p,
        j < e[s].count,
    ensures
        ({
            let k = e[s].count as int;
            let before = unpin_n(e, (s + 1) as u32, j);
            let (after, released) = unpin_spec(before, (s + 1) as u32);
            &&& pinned_in(before, p)
            &&& active_upto(before, REGISTRY_CAP as int) == active_upto(e, REGISTRY_CAP as int)
            &&& released == (j + 1 == k)
            &&& pinned_in(after, p) == (j + 1 < k)
            &&& active_upto(after, REGISTRY_CAP as int) == active_upto(e, REGISTRY_CAP as int) - (
            if j + 1 == k {
                1int
            } else {
                0int
            })
        }),
{
    let k = e[s].count as int;
    lemma_unpin_n(e, p, s, j);
    let before = unpin_n(e, (s + 1) as u32, j);
    let vb = PinEntry { ptr: p, count: (k - j) as u32 };
    assert(before == e.update(s, vb));
    lemma_active_update(e, s, vb, REGISTRY_CAP as int);
    assert(before[s].count > 0 && before[s].ptr == p);
    let (after, released) = unpin_spec(before, (s + 1) as u32);
    if j + 1 == k {
        let va = PinEntry { ptr: ColoredPtr(0), count: 0 };
        assert(after == e.update(s, va));
        lemma_active_update(e, s, va, REGISTRY_CAP as int);
        if pinned_in(after, p) {
            let i = choose|i: int| 0 <= i < after.len() && after[i].count > 0 && after[i].ptr == p;
            assert(i != s);
            assert(e[i].count > 0 && e[i].ptr == p);
        }
    } else {
        let va = PinEntry { ptr: p, count: (k - j - 1) as u32 };
        assert(after == e.update(s, va));
        lemma_active_update(e, s, va, REGISTRY_CAP as int);
        assert(after[s].count > 0 && after[s].ptr == p);
    }
}

/// No pointer is pinned by two different slots.
pub open spec fn distinct_pins(e: Seq<PinEntry>) -> bool {
    forall|i: int, j: int|
        0 <= i < e.len() && 0 <= j < e.len() && i != j && e[i].count > 0 && e[j].count > 0
            ==> e[i].ptr != e[j].ptr
}

} // verus!
