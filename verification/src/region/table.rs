//! Region table: array of regions, indexed by region id.
use crate::error::RuntimeError;
use crate::region::{REGION_SIZE, Region};
use vstd::prelude::*;

verus! {

/// Max regions in one table.
pub const MAX_REGIONS: usize = 4096;

/// Region table.
pub struct RegionTable {
    regions: Vec<Region>,
    count: usize,
    next_alloc: usize,
}

impl View for RegionTable {
    type V = Seq<Region>;

    /// The regions of the table, by index.
    closed spec fn view(&self) -> Seq<Region> {
        self.regions@
    }
}

/// The first index `i` with `from <= i < regions.len()` whose region is
/// available, if there is one.
pub open spec fn first_available(regions: Seq<Region>, from: int) -> Option<int>
    decreases regions.len() - from,
{
    if from < 0 || from >= regions.len() {
        None
    } else if !regions[from].occupied && regions[from].start != 0 {
        Some(from)
    } else {
        first_available(regions, from + 1)
    }
}

impl RegionTable {
    /// Internal consistency: one region per index, at most `MAX_REGIONS`.
    pub closed spec fn wf(&self) -> bool {
        &&& self.regions@.len() == self.count
        &&& self.count <= MAX_REGIONS
    }

    /// Position of the allocation cursor.
    pub closed spec fn cursor(&self) -> usize {
        self.next_alloc
    }

    /// Construct a table of `count` unbound regions.
    pub fn new(count: usize) -> (r: Result<RegionTable, RuntimeError>)
        ensures
            count > MAX_REGIONS ==> r == Err::<RegionTable, RuntimeError>(
                RuntimeError::OutOfMemory,
            ),
            count <= MAX_REGIONS ==> (r matches Ok(t) && t.wf() && t.cursor() == 0 && t@
                =~= Seq::new(count as nat, |i: int| Region::unbound_spec())),
    {
        if count > MAX_REGIONS {
            return Err(RuntimeError::OutOfMemory);
        }
        let mut regions: Vec<Region> = Vec::new();
        while regions.len() < count
            invariant
                regions@.len() <= count,
                forall|i: int| 0 <= i < regions@.len() ==> regions@[i] == Region::unbound_spec(),
            decreases count - regions@.len(),
        {
            regions.push(Region { start: 0, used: 0, capacity: REGION_SIZE, occupied: false });
        }
        Ok(RegionTable { regions, count, next_alloc: 0 })
    }

    /// Number of regions.
    pub fn len(&self) -> (r: usize)
        requires
            self.wf(),
        ensures
            r == self@.len(),
    {
        self.count
    }

    /// Whether the table is empty.
    pub fn is_empty(&self) -> (r: bool)
        requires
            self.wf(),
        ensures
            r == (self@.len() == 0),
    {
        self.count == 0
    }

    /// Read a region by index.
    pub fn get(&self, idx: usize) -> (r: Option<&Region>)
        requires
            self.wf(),
        ensures
            idx < self@.len() ==> r == Some(&self@[idx as int]),
            idx >= self@.len() ==> r is None,
    {
        if idx < self.count {
            Some(&self.regions[idx])
        } else {
            None
        }
    }

    /// Mutable access by index.
    pub fn get_mut(&mut self, idx: usize) -> (r: Option<&mut Region>)
        requires
            old(self).wf(),
        ensures
            idx >= old(self)@.len() ==> r is None && *final(self) == *old(self),
            idx < old(self)@.len() ==> r is Some && *r->0 == old(self)@[idx as int],
            idx < old(self)@.len() ==> final(self)@ == old(self)@.update(idx as int, *final(r->0)),
            final(self).wf(),
            final(self).cursor() == old(self).cursor(),
    {
        if idx < self.count {
            Some(&mut self.regions[idx])
        } else {
            None
        }
    }
}

impl RegionTable {
    /// Reserve the next available region at or after the cursor. Returns
    /// its index and moves the cursor past it; the regions themselves are
    /// not changed.
    pub fn reserve_next(&mut self) -> (r: Option<usize>)
        requires
            old(self).wf(),
        ensures
            final(self).wf(),
            final(self)@ == old(self)@,
            r matches Some(i) ==> first_available(old(self)@, old(self).cursor() as int) == Some(
                i as int,
            ) && final(self).cursor() == i + 1,
            r is None ==> first_available(old(self)@, old(self).cursor() as int) is None
                && final(self).cursor() == (if old(self).cursor() < old(self)@.len() {
                old(self)@.len() as usize
            } else {
                old(self).cursor()
            }),
    {
        while self.next_alloc < self.count
            invariant
                self.wf(),
                self@ == old(self)@,
                old(self).cursor() <= self.next_alloc,
                self.next_alloc <= self.count || self.next_alloc == old(self).cursor(),
                first_available(old(self)@, old(self).cursor() as int) == first_available(
                    self@,
                    self.next_alloc as int,
                ),
            decreases self.count - self.next_alloc,
        {
            let idx = self.next_alloc;
            self.next_alloc = self.next_alloc + 1;
            if self.regions[idx].is_available() {
                return Some(idx);
            }
        }
        None
    }

    /// Reset the allocation cursor.
    pub fn reset_cursor(&mut self)
        requires
            old(self).wf(),
        ensures
            final(self).wf(),
            final(self)@ == old(self)@,
            final(self).cursor() == 0,
    {
        self.next_alloc = 0;
    }

    /// Total addressable bytes.
    pub fn total_bytes(&self) -> (r: usize)
        requires
            self.wf(),
            self@.len() * REGION_SIZE <= usize::MAX,
        ensures
            r == self@.len() * REGION_SIZE,
    {
        self.count * REGION_SIZE
    }
}

/// After a reset, reservation scans the whole table again: the next
/// reservation yields the first available region of the table.
pub proof fn law_reset_then_reserve(regions: Seq<Region>)
    ensures
        first_available(regions, 0) is Some ==> ({
            let i = first_available(regions, 0)->0;
            &&& 0 <= i < regions.len()
            &&& !regions[i].occupied && regions[i].start != 0
            &&& forall|j: int| 0 <= j < i ==> regions[j].occupied || regions[j].start == 0
        }),
        first_available(regions, 0) is None ==> forall|j: int|
            0 <= j < regions.len() ==> regions[j].occupied || regions[j].start == 0,
{
    lemma_first_available(regions, 0);
}

/// `first_available` finds the first available region at or after `from`.
proof fn lemma_first_available(regions: Seq<Region>, from: int)
    requires
        0 <= from,
    ensures
        first_available(regions, from) is Some ==> ({
            let i = first_available(regions, from)->0;
            &&& from <= i < regions.len()
            &&& !regions[i].occupied && regions[i].start != 0
            &&& forall|j: int| from <= j < i ==> regions[j].occupied || regions[j].start == 0
        }),
        first_available(regions, from) is None ==> forall|j: int|
            from <= j < regions.len() ==> regions[j].occupied || regions[j].start == 0,
    decreases regions.len() - from,
{
    if from < regions.len() {
        lemma_first_available(regions, from + 1);
    }
}

} // verus!
