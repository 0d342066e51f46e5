//! Weak references: pointers that do not prevent GC of the referent.
//!
//! A `WeakRef` is upgraded to its target only if the object is still
//! alive. After the target is invalidated, the weak reference is dead.
use crate::colored::ColoredPtr;
use crate::error::RuntimeError;
use crate::finalize::queue::wrap_inc;
use vstd::prelude::*;

verus! {

/// Capacity of the weak table.
pub const WEAK_TABLE_CAP: usize = 256;

/// One weak reference entry.
#[derive(Debug, Clone, Copy, PartialEq, Eq, Structural)]
pub struct WeakEntry {
    pub id: u32,
    pub target: ColoredPtr,
    pub alive: bool,
}

/// Opaque weak reference handle.
#[derive(Debug, Clone, Copy, PartialEq, Eq, Hash, Structural)]
pub struct WeakRef(pub u32);

/// Weak reference table.
pub struct WeakTable {
    entries: Vec<WeakEntry>,
    next_id: u32,
}

/// The first dead slot at or after `from`.
pub open spec fn first_dead(e: Seq<WeakEntry>, from: int) -> Option<int>
    decreases e.len() - from,
{
    if from < 0 || from >= e.len() {
        None
    } else if !e[from].alive {
        Some(from)
    } else {
        first_dead(e, from + 1)
    }
}

/// The first live slot with id `id` at or after `from`.
pub open spec fn find_alive(e: Seq<WeakEntry>, id: u32, from: int) -> Option<int>
    decreases e.len() - from,
{
    if from < 0 || from >= e.len() {
        None
    } else if e[from].alive && e[from].id == id {
        Some(from)
    } else {
        find_alive(e, id, from + 1)
    }
}

/// What `upgrade(w)` returns on a table with slots `e`.
pub open spec fn upgrade_spec(e: Seq<WeakEntry>, w: WeakRef) -> Option<ColoredPtr> {
    match find_alive(e, w.0, 0) {
        Some(i) => Some(e[i].target),
        None => None,
    }
}

/// Whether slot `x` is a live reference to `t`.
pub open spec fn refers_to(x: WeakEntry, t: ColoredPtr) -> bool {
    x.alive && x.target == t
}

/// The slots after `invalidate(t)`: every live reference to `t` dies.
pub open spec fn invalidate_spec(e: Seq<WeakEntry>, t: ColoredPtr) -> Seq<WeakEntry> {
    Seq::new(
        e.len(),
        |i: int|
            if refers_to(e[i], t) {
                WeakEntry { alive: false, ..e[i] }
            } else {
                e[i]
            },
    )
}

/// Number of live references to `t` among the first `n` slots.
pub open spec fn refs_upto(e: Seq<WeakEntry>, t: ColoredPtr, n: int) -> nat
    decreases n,
{
    if n <= 0 {
        0
    } else {
        refs_upto(e, t, n - 1) + if n - 1 < e.len() && refers_to(e[n - 1], t) {
            1nat
        } else {
            0nat
        }
    }
}

/// Number of live slots among the first `n`.
pub open spec fn alive_upto(e: Seq<WeakEntry>, n: int) -> nat
    decreases n,
{
    if n <= 0 {
        0
    } else {
        alive_upto(e, n - 1) + if n - 1 < e.len() && e[n - 1].alive {
            1nat
        } else {
            0nat
        }
    }
}

impl View for WeakTable {
    type V = Seq<WeakEntry>;

    /// The table slots, by index.
    closed spec fn view(&self) -> Seq<WeakEntry> {
        self.entries@
    }
}

impl WeakTable {
    /// The id the next created reference receives.
    pub closed spec fn spec_next_id(&self) -> u32 {
        self.next_id
    }

    /// Internal consistency: `WEAK_TABLE_CAP` slots.
    pub closed spec fn wf(&self) -> bool {
        self.entries@.len() == WEAK_TABLE_CAP
    }

    /// Construct an empty weak table; the first id handed out is 1.
    pub fn new() -> (r: WeakTable)
        ensures
            r.wf(),
            r.spec_next_id() == 1,
            r@ == Seq::new(
                WEAK_TABLE_CAP as nat,
                |i: int| WeakEntry { id: 0, target: ColoredPtr(0), alive: false },
            ),
    {
        let mut entries: Vec<WeakEntry> = Vec::new();
        while entries.len() < WEAK_TABLE_CAP
            invariant
                entries@.len() <= WEAK_TABLE_CAP,
                forall|i: int|
                    0 <= i < entries@.len() ==> entries@[i] == (WeakEntry {
                        id: 0,
                        target: ColoredPtr(0),
                        alive: false,
                    }),
            decreases WEAK_TABLE_CAP - entries@.len(),
        {
            entries.push(WeakEntry { id: 0, target: ColoredPtr(0), alive: false });
        }
        let r = WeakTable { entries, next_id: 1 };
        assert(r@ =~= Seq::new(
            WEAK_TABLE_CAP as nat,
            |i: int| WeakEntry { id: 0, target: ColoredPtr(0), alive: false },
        ));
        r
    }

    /// Create a weak reference to `target` in the first dead slot; `None`
    /// when every slot is live.
    pub fn create(&mut self, target: ColoredPtr) -> (r: Option<WeakRef>)
        requires
            old(self).wf(),
        ensures
            final(self).wf(),
            first_dead(old(self)@, 0) matches Some(i) ==> ({
                &&& r == Some(WeakRef(old(self).spec_next_id()))
                &&& final(self)@ == old(self)@.update(
                    i,
                    WeakEntry { id: old(self).spec_next_id(), target, alive: true },
                )
                &&& final(self).spec_next_id() == wrap_inc(old(self).spec_next_id())
            }),
            first_dead(old(self)@, 0) is None ==> r is None && final(self)@ == old(self)@
                && final(self).spec_next_id() == old(self).spec_next_id(),
    {
        let mut i: usize = 0;
        while i < self.entries.len()
            invariant
                self.wf(),
                self@ == old(self)@,
                self.next_id == old(self).next_id,
                i <= WEAK_TABLE_CAP,
                first_dead(old(self)@, 0) == first_dead(old(self)@, i as int),
            decreases WEAK_TABLE_CAP - i,
        {
            if !self.entries[i].alive {
                let id = self.next_id;
                self.next_id = self.next_id.wrapping_add(1);
                self.entries.set(i, WeakEntry { id, target, alive: true });
                return Some(WeakRef(id));
            }
            i = i + 1;
        }
        None
    }

    /// Try to upgrade a weak reference. Returns the target if still alive.
    pub fn upgrade(&self, w: WeakRef) -> (r: Option<ColoredPtr>)
        requires
            self.wf(),
        ensures
            r == upgrade_spec(self@, w),
    {
        let mut i: usize = 0;
        while i < self.entries.len()
            invariant
                self.wf(),
                i <= WEAK_TABLE_CAP,
                find_alive(self@, w.0, 0) == find_alive(self@, w.0, i as int),
            decreases WEAK_TABLE_CAP - i,
        {
            let e = self.entries[i];
            if e.alive && e.id == w.0 {
                return Some(e.target);
            }
            i = i + 1;
        }
        None
    }

    /// Mark every live reference to `target` as dead (called during GC
    /// sweep); returns how many there were.
    pub fn invalidate(&mut self, target: ColoredPtr) -> (r: usize)
        requires
            old(self).wf(),
        ensures
            final(self).wf(),
            final(self).spec_next_id() == old(self).spec_next_id(),
            final(self)@ == invalidate_spec(old(self)@, target),
            r == refs_upto(old(self)@, target, WEAK_TABLE_CAP as int),
    {
        let mut n: usize = 0;
        let mut i: usize = 0;
        while i < self.entries.len()
            invariant
                self.wf(),
                old(self).wf(),
                self.next_id == old(self).next_id,
                i <= WEAK_TABLE_CAP,
                n == refs_upto(old(self)@, target, i as int),
                n <= i,
                forall|j: int|
                    0 <= j < WEAK_TABLE_CAP ==> self@[j] == if j < i {
                        invalidate_spec(old(self)@, target)[j]
                    } else {
                        old(self)@[j]
                    },
            decreases WEAK_TABLE_CAP - i,
        {
            let e = self.entries[i];
            let ghost prev = self@;
            if e.alive && e.target == target {
                self.entries.set(i, WeakEntry { alive: false, ..e });
                n = n + 1;
            }
            assert(forall|j: int| 0 <= j < WEAK_TABLE_CAP && j != i ==> self@[j] == prev[j]);
            i = i + 1;
        }
        assert(self@ =~= invalidate_spec(old(self)@, target));
        n
    }

    /// Number of currently live weak references.
    pub fn len(&self) -> (r: usize)
        requires
            self.wf(),
        ensures
            r == alive_upto(self@, WEAK_TABLE_CAP as int),
    {
        let mut n: usize = 0;
        let mut i: usize = 0;
        while i < self.entries.len()
            invariant
                self.wf(),
                i <= WEAK_TABLE_CAP,
                n == alive_upto(self@, i as int),
                n <= i,
            decreases WEAK_TABLE_CAP - i,
        {
            if self.entries[i].alive {
                n = n + 1;
            }
            i = i + 1;
        }
        n
    }

    /// Whether the table has no live weak references.
    pub fn is_empty(&self) -> (r: bool)
        requires
            self.wf(),
        ensures
            r == (alive_upto(self@, WEAK_TABLE_CAP as int) == 0),
    {
        self.len() == 0
    }

    /// Whether `w` refers to a live entry.
    pub fn contains(&self, w: WeakRef) -> (r: bool)
        requires
            self.wf(),
        ensures
            r == find_alive(self@, w.0, 0) is Some,
    {
        let mut i: usize = 0;
        while i < self.entries.len()
            invariant
                self.wf(),
                i <= WEAK_TABLE_CAP,
                find_alive(self@, w.0, 0) == find_alive(self@, w.0, i as int),
            decreases WEAK_TABLE_CAP - i,
        {
            let e = self.entries[i];
            if e.alive && e.id == w.0 {
                return true;
            }
            i = i + 1;
        }
        false
    }
}

impl Default for WeakTable {
    fn default() -> (r: WeakTable)
        ensures
            r.wf(),
            r.spec_next_id() == 1,
            r@ == Seq::new(
                WEAK_TABLE_CAP as nat,
                |i: int| WeakEntry { id: 0, target: ColoredPtr(0), alive: false },
            ),
    {
        WeakTable::new()
    }
}

/// Attempt to upgrade a weak reference.
///
/// # Errors
///
/// Returns `NoParkingPermit` if the reference is dead.
pub fn try_upgrade(table: &WeakTable, w: WeakRef) -> (r: Result<ColoredPtr, RuntimeError>)
    requires
        table.wf(),
    ensures
        upgrade_spec(table@, w) matches Some(p) ==> r == Ok::<ColoredPtr, RuntimeError>(p),
        upgrade_spec(table@, w) is None ==> r == Err::<ColoredPtr, RuntimeError>(
            RuntimeError::NoParkingPermit,
        ),
{
    match table.upgrade(w) {
        Some(p) => Ok(p),
        None => Err(RuntimeError::NoParkingPermit),
    }
}

/// What `find_alive` finds.
pub proof fn lemma_find_alive(e: Seq<WeakEntry>, id: u32, from: int)
    requires
        0 <= from,
    ensures
        find_alive(e, id, from) matches Some(i) ==> from <= i < e.len() && e[i].alive && e[i].id
            == id,
        find_alive(e, id, from) is None ==> forall|j: int|
            from <= j < e.len() ==> !(e[j].alive && e[j].id == id),
    decreases e.len() - from,
{
    if from < e.len() {
        lemma_find_alive(e, id, from + 1);
    }
}

/// A freshly created reference upgrades to its target, provided no live
/// reference already carried the id it was given (ids wrap around after
/// `u32::MAX` creations).
pub proof fn law_create_upgrade(e: Seq<WeakEntry>, i: int, next: u32, t: ColoredPtr)
    requires
        first_dead(e, 0) == Some(i),
        0 <= i < e.len(),
        forall|j: int| 0 <= j < e.len() ==> !(e[j].alive && e[j].id == next),
    ensures
        upgrade_spec(e.update(i, WeakEntry { id: next, target: t, alive: true }), WeakRef(next))
            == Some(t),
{
    let e2 = e.update(i, WeakEntry { id: next, target: t, alive: true });
    lemma_find_alive(e2, next, 0);
    match find_alive(e2, next, 0) {
        Some(k) => {
            if k != i {
                assert(e2[k] == e[k]);
            }
        },
        None => {
            assert(e2[i].alive && e2[i].id == next);
        },
    }
}

/// Once its target is invalidated, no weak reference upgrades to it any
/// more.
pub proof fn law_invalidate_kills(e: Seq<WeakEntry>, t: ColoredPtr, w: WeakRef)
    ensures
        upgrade_spec(invalidate_spec(e, t), w) != Some(t),
        forall|j: int|
            0 <= j < e.len() ==> !refers_to(#[trigger] invalidate_spec(e, t)[j], t),
{
    let e2 = invalidate_spec(e, t);
    lemma_find_alive(e2, w.0, 0);
}

} // verus!
