//! Slab allocator: pool of fixed-size slabs, one pool per `SlabSize`.
pub mod page;
pub mod size;

use crate::colored::{Color, ColoredPtr, pack};
use crate::slab::page::{SLAB_BITS, Slab, count_set, first_set, lemma_count_bounds, lemma_count_update, lemma_first_set};
use crate::slab::size::{SlabSize, size_for};
use vstd::prelude::*;

verus! {

/// Maximum number of slabs (pages) an allocator manages.
pub const MAX_SLABS: usize = 32;

/// Number of size pools.
pub const POOL_COUNT: usize = 6;

/// Bytes per slab page.
pub const SLAB_PAGE: u64 = 4096;

/// The slot size served by pool `p`.
pub open spec fn pool_size(p: int) -> u32 {
    if p == 0 {
        16
    } else if p == 1 {
        32
    } else if p == 2 {
        64
    } else if p == 3 {
        128
    } else if p == 4 {
        256
    } else {
        512
    }
}

/// The pool that serves slot size `s`.
pub open spec fn pool_of(s: u32) -> int {
    if s == 16 {
        0
    } else if s == 32 {
        1
    } else if s == 64 {
        2
    } else if s == 128 {
        3
    } else if s == 256 {
        4
    } else {
        5
    }
}

/// Slots per page for slot size `s`.
pub open spec fn spp(s: u32) -> int {
    4096int / (s as int)
}

/// Per-size slab pool: a stack of slabs with free slots (`partial`) and a
/// list of slabs that were exhausted (`full`).
struct SizePool {
    size: SlabSize,
    partial: Vec<Option<usize>>,
    partial_head: usize,
    full: Vec<Option<usize>>,
    full_head: usize,
    next_slot: u32,
}

impl SizePool {
    spec fn wf(&self) -> bool {
        &&& self.partial@.len() == MAX_SLABS
        &&& self.full@.len() == MAX_SLABS
        &&& self.partial_head <= MAX_SLABS
        &&& self.full_head <= MAX_SLABS
        &&& forall|i: int| 0 <= i < self.partial_head ==> self.partial@[i] is Some
        &&& forall|i: int| 0 <= i < self.full_head ==> self.full@[i] is Some
    }

    spec fn partial_list(&self) -> Seq<usize> {
        Seq::new(self.partial_head as nat, |i: int| self.partial@[i].unwrap())
    }

    spec fn full_list(&self) -> Seq<usize> {
        Seq::new(self.full_head as nat, |i: int| self.full@[i].unwrap())
    }

    fn new(size: SlabSize) -> (r: SizePool)
        ensures
            r.wf(),
            r.size == size,
            r.partial_list() == Seq::<usize>::empty(),
            r.full_list() == Seq::<usize>::empty(),
            r.partial_head == 0,
            r.full_head == 0,
    {
        let mut partial: Vec<Option<usize>> = Vec::new();
        let mut full: Vec<Option<usize>> = Vec::new();
        while partial.len() < MAX_SLABS
            invariant
                partial@.len() <= MAX_SLABS,
                full@.len() == partial@.len(),
            decreases MAX_SLABS - partial@.len(),
        {
            partial.push(None);
            full.push(None);
        }
        let r = SizePool { size, partial, partial_head: 0, full, full_head: 0, next_slot: 0 };
        assert(r.partial_list() =~= Seq::<usize>::empty());
        assert(r.full_list() =~= Seq::<usize>::empty());
        r
    }

    fn add_partial(&mut self, idx: usize)
        requires
            old(self).wf(),
        ensures
            final(self).wf(),
            final(self).size == old(self).size,
            final(self).full_list() == old(self).full_list(),
            final(self).full_head == old(self).full_head,
            old(self).partial_head < MAX_SLABS ==> final(self).partial_list() == old(
                self).partial_list().push(idx),
            old(self).partial_head >= MAX_SLABS ==> final(self).partial_list() == old(
                self).partial_list(),
    {
        if self.partial_head < self.partial.len() {
            self.partial.set(self.partial_head, Some(idx));
            self.partial_head = self.partial_head + 1;
            assert(self.partial_list() =~= old(self).partial_list().push(idx));
        }
        assert(self.full_list() =~= old(self).full_list());
    }
}

/// Slab allocator.
pub struct SlabAllocator {
    pools: Vec<SizePool>,
    slabs: Vec<Option<Slab>>,
    slab_count: usize,
    base: u64,
}

/// A slab managed by the allocator: standard size, its page at `base`,
/// slots past the page's slot count permanently marked free (so never
/// handed out), and the free count equal to the free slots within the page.
pub open spec fn managed(s: Slab, base: u64) -> bool {
    &&& s.wf()
    &&& s.spec_base() == base
    &&& pool_size(pool_of(s.spec_size().0)) == s.spec_size().0
    &&& forall|j: int| spp(s.spec_size().0) <= j < SLAB_BITS ==> #[trigger] s.free_bits()[j]
    &&& s.spec_free_count() == count_set(s.free_bits(), spp(s.spec_size().0))
}

impl SlabAllocator {
    /// Address of the first slab page.
    pub closed spec fn spec_base(&self) -> u64 {
        self.base
    }

    /// Number of slabs created so far.
    pub closed spec fn spec_count(&self) -> int {
        self.slab_count as int
    }

    /// Slab `i` (meaningful for `i < spec_count()`).
    pub closed spec fn slab(&self, i: int) -> Slab {
        self.slabs@[i].unwrap()
    }

    /// The slabs pool `p` allocates from next, last one first.
    pub closed spec fn partial_list(&self, p: int) -> Seq<usize> {
        self.pools@[p].partial_list()
    }

    /// The slabs pool `p` recorded as exhausted.
    pub closed spec fn full_list(&self, p: int) -> Seq<usize> {
        self.pools@[p].full_list()
    }

    closed spec fn pool_ok(&self, p: int) -> bool {
        let pool = self.pools@[p];
        &&& pool.wf()
        &&& pool.size.0 == pool_size(p)
        &&& pool.partial_head + pool.full_head <= self.slab_count
        &&& pool.partial_list().no_duplicates()
        &&& forall|j: int|
            0 <= j < pool.partial_list().len() ==> self.entry_ok(
                p,
                #[trigger] pool.partial_list()[j] as int,
            )
    }

    closed spec fn entry_ok(&self, p: int, idx: int) -> bool {
        &&& 0 <= idx < self.slab_count
        &&& self.slabs@[idx].unwrap().spec_size().0 == pool_size(p)
        &&& self.slabs@[idx].unwrap().spec_free_count() > 0
    }

    closed spec fn slab_ok(&self, i: int) -> bool {
        &&& self.slabs@[i] is Some
        &&& managed(self.slabs@[i].unwrap(), (self.base + i * SLAB_PAGE) as u64)
    }

    /// Internal consistency of pools, slabs and the address range.
    pub closed spec fn wf(&self) -> bool {
        &&& self.pools@.len() == POOL_COUNT
        &&& self.slabs@.len() == MAX_SLABS
        &&& self.slab_count <= MAX_SLABS
        &&& self.base + self.slab_count * SLAB_PAGE <= 0x1_0000_0000_0000_0000
        &&& forall|p: int| 0 <= p < POOL_COUNT ==> #[trigger] self.pool_ok(p)
        &&& forall|i: int| 0 <= i < self.slab_count ==> #[trigger] self.slab_ok(i)
    }

    /// Construct a slab allocator with `base` as the first address.
    pub fn new(base: u64) -> (r: SlabAllocator)
        ensures
            r.wf(),
            r.spec_base() == base,
            r.spec_count() == 0,
            forall|p: int| 0 <= p < POOL_COUNT ==> r.partial_list(p).len() == 0 && r.full_list(p).len() == 0,
    {
        let mut pools: Vec<SizePool> = Vec::new();
        while pools.len() < POOL_COUNT
            invariant
                pools@.len() <= POOL_COUNT,
                forall|j: int|
                    0 <= j < pools@.len() ==> (#[trigger] pools@[j]).wf() && pools@[j].size.0
                        == pool_size(j) && pools@[j].partial_head == 0 && pools@[j].full_head == 0,
            decreases POOL_COUNT - pools@.len(),
        {
            let s: u32 = match pools.len() {
                0 => 16,
                1 => 32,
                2 => 64,
                3 => 128,
                4 => 256,
                _ => 512,
            };
            pools.push(SizePool::new(SlabSize(s)));
        }
        let mut slabs: Vec<Option<Slab>> = Vec::new();
        while slabs.len() < MAX_SLABS
            invariant
                slabs@.len() <= MAX_SLABS,
            decreases MAX_SLABS - slabs@.len(),
        {
            slabs.push(None);
        }
        let r = SlabAllocator { pools, slabs, slab_count: 0, base };
        assert forall|p: int| 0 <= p < POOL_COUNT implies #[trigger] r.pool_ok(p) by {
        }
        r
    }

    /// Number of allocated slabs.
    pub fn slab_count(&self) -> (r: usize)
        requires
            self.wf(),
        ensures
            r == self.spec_count(),
    {
        self.slab_count
    }

    /// Total bytes reserved: one page per slab.
    pub fn reserved(&self) -> (r: u64)
        requires
            self.wf(),
        ensures
            r == self.spec_count() * SLAB_PAGE,
    {
        self.slab_count as u64 * SLAB_PAGE
    }

    /// The pool `allocate(bytes)` serves.
    pub open spec fn alloc_pool(bytes: usize) -> int {
        pool_of(size_for(bytes as int))
    }

    /// Whether `allocate(bytes)` first creates a new slab: some slab size
    /// fits `bytes`, its pool has no partial slab and fewer than
    /// `MAX_SLABS` slabs exist.
    pub open spec fn grows(&self, bytes: usize) -> bool {
        &&& bytes <= 512
        &&& self.partial_list(Self::alloc_pool(bytes)).len() == 0
        &&& self.spec_count() < MAX_SLABS
    }

    /// The slab `allocate(bytes)` takes a slot from: the new slab, or the
    /// last partial slab of the pool.
    pub open spec fn alloc_slab(&self, bytes: usize) -> int {
        if self.grows(bytes) {
            self.spec_count()
        } else {
            self.partial_list(Self::alloc_pool(bytes)).last() as int
        }
    }

    /// The free-slot bits of that slab before the allocation (all set for
    /// a new slab).
    pub open spec fn alloc_bits(&self, bytes: usize) -> Seq<bool> {
        if self.grows(bytes) {
            Seq::new(SLAB_BITS as nat, |i: int| true)
        } else {
            self.slab(self.alloc_slab(bytes)).free_bits()
        }
    }

    /// The free count of that slab before the allocation.
    pub open spec fn alloc_free(&self, bytes: usize) -> int {
        if self.grows(bytes) {
            spp(size_for(bytes as int))
        } else {
            self.slab(self.alloc_slab(bytes)).spec_free_count() as int
        }
    }

    /// The slot `allocate(bytes)` hands out: the lowest free one.
    pub open spec fn alloc_slot(&self, bytes: usize) -> int {
        first_set(self.alloc_bits(bytes), 0)
    }

    /// Allocate a slot from the smallest slab size that fits `bytes`.
    ///
    /// If the size's pool has no slab with free slots, a new slab is
    /// created first (while fewer than `MAX_SLABS` exist). The slot is
    /// taken from the pool's most recently added partial slab; a slab left
    /// without free slots moves to the pool's full list. Returns a white
    /// pointer to the slot, or `None` when no slab size fits `bytes` (over
    /// 512 bytes) or the pool has no partial slab and no new slab can be
    /// created.
    pub fn allocate(&mut self, bytes: usize) -> (r: Option<ColoredPtr>)
        requires
            old(self).wf(),
            old(self).grows(bytes) ==> old(self).spec_base() + (old(self).spec_count() + 1)
                * SLAB_PAGE <= 0x1_0000_0000_0000_0000,
        ensures
            final(self).wf(),
            final(self).spec_base() == old(self).spec_base(),
            (r is None) == (bytes > 512 || (old(self).partial_list(Self::alloc_pool(bytes)).len()
                == 0 && old(self).spec_count() == MAX_SLABS)),
            r is None ==> final(self).spec_count() == old(self).spec_count() && (forall|j: int|
                0 <= j < old(self).spec_count() ==> final(self).slab(j) == old(self).slab(j)) && (
            forall|q: int|
                0 <= q < POOL_COUNT ==> final(self).partial_list(q) == old(self).partial_list(q)
                    && final(self).full_list(q) == old(self).full_list(q)),
            r matches Some(ptr) ==> ({
                let sz = size_for(bytes as int);
                let p = Self::alloc_pool(bytes);
                let idx = old(self).alloc_slab(bytes);
                let slot = old(self).alloc_slot(bytes);
                let exhausted = old(self).alloc_free(bytes) == 1;
                let rest = if old(self).grows(bytes) {
                    Seq::<usize>::empty()
                } else {
                    old(self).partial_list(p).drop_last()
                };
                &&& ptr.0 == pack(
                    (old(self).spec_base() + idx * SLAB_PAGE + slot * sz) as usize,
                    Color::White,
                )
                &&& slot < spp(sz)
                &&& old(self).alloc_bits(bytes)[slot]
                &&& final(self).spec_count() == old(self).spec_count() + if old(self).grows(bytes) {
                    1int
                } else {
                    0int
                }
                &&& final(self).slab(idx).spec_size().0 == sz
                &&& final(self).slab(idx).free_bits() == old(self).alloc_bits(bytes).update(
                    slot,
                    false,
                )
                &&& final(self).slab(idx).spec_free_count() == old(self).alloc_free(bytes) - 1
                &&& forall|j: int|
                    0 <= j < old(self).spec_count() && j != idx ==> final(self).slab(j) == old(
                        self).slab(j)
                &&& final(self).partial_list(p) == if exhausted {
                    rest
                } else {
                    rest.push(idx as usize)
                }
                &&& final(self).full_list(p) == if exhausted {
                    old(self).full_list(p).push(idx as usize)
                } else {
                    old(self).full_list(p)
                }
                &&& forall|q: int|
                    0 <= q < POOL_COUNT && q != p ==> final(self).partial_list(q) == old(
                        self).partial_list(q) && final(self).full_list(q) == old(self).full_list(q)
            }),
            r matches Some(ptr) ==> allocate_step(*old(self), bytes, *final(self), ptr),
            r is None ==> same_slabs(*old(self), *final(self)),
    {
        let size = SlabSize::for_bytes(bytes);
        if bytes > size.0 as usize {
            return None;
        }
        let pool_idx = match Self::pool_index(size) {
            Some(i) => i,
            None => return None,
        };
        proof {
            assert(pool_idx as int == Self::alloc_pool(bytes));
            assert(self.pool_ok(pool_idx as int));
            lemma_spp_bounds(size.0);
            assert(self.pools@[pool_idx as int].partial_head == self.partial_list(
                pool_idx as int,
            ).len());
        }
        if self.pools[pool_idx].partial_head == 0 && self.slab_count < MAX_SLABS {
            proof {
                assert(old(self).grows(bytes));
            }
            self.grow(pool_idx, size);
            proof {
                assert(self.partial_list(pool_idx as int).len() == 1);
            }
        }
        proof {
            assert(self.pool_ok(pool_idx as int));
            assert(self.pools@[pool_idx as int].partial_head == self.partial_list(
                pool_idx as int,
            ).len());
        }
        if self.pools[pool_idx].partial_head > 0 {
            proof {
                let b = old(self).alloc_bits(bytes);
                if !old(self).grows(bytes) {
                    old(self).slab(old(self).alloc_slab(bytes)).lemma_bits_len();
                }
                assert(b.len() == SLAB_BITS);
                lemma_first_set(b, 0);
            }
            return self.take_slot(pool_idx, size);
        }
        proof {
            assert(old(self).partial_list(pool_idx as int).len() == 0);
            assert(old(self).spec_count() == MAX_SLABS);
            assert(*self == *old(self));
        }
        None
    }

    /// Create the next slab, all slots free, and make it the pool's only
    /// partial slab.
    fn grow(&mut self, pool_idx: usize, size: SlabSize)
        requires
            old(self).wf(),
            pool_idx < POOL_COUNT,
            size.0 == pool_size(pool_idx as int),
            old(self).partial_list(pool_idx as int).len() == 0,
            old(self).spec_count() < MAX_SLABS,
            old(self).spec_base() + (old(self).spec_count() + 1) * SLAB_PAGE
                <= 0x1_0000_0000_0000_0000,
        ensures
            final(self).wf(),
            final(self).spec_base() == old(self).spec_base(),
            final(self).spec_count() == old(self).spec_count() + 1,
            final(self).slab(old(self).spec_count()).free_bits() == Seq::new(
                SLAB_BITS as nat,
                |i: int| true,
            ),
            final(self).slab(old(self).spec_count()).spec_free_count() == spp(size.0),
            final(self).slab(old(self).spec_count()).spec_size() == size,
            forall|j: int|
                0 <= j < old(self).spec_count() ==> final(self).slab(j) == old(self).slab(j),
            final(self).partial_list(pool_idx as int) == seq![old(self).spec_count() as usize],
            final(self).full_list(pool_idx as int) == old(self).full_list(pool_idx as int),
            forall|q: int|
                0 <= q < POOL_COUNT && q != pool_idx ==> final(self).partial_list(q) == old(
                    self).partial_list(q) && final(self).full_list(q) == old(self).full_list(q),
    {
        proof {
            assert(self.pool_ok(pool_idx as int));
            lemma_spp_bounds(size.0);
        }
        let base = self.base + (self.slab_count as u64) * SLAB_PAGE;
        let mut slab = Slab::new(size, base);
        slab.init_full();
        proof {
            page::lemma_count_all_set(slab.free_bits(), spp(size.0));
        }
        self.slabs.set(self.slab_count, Some(slab));
        self.pools[pool_idx].add_partial(self.slab_count);
        self.slab_count = self.slab_count + 1;
        proof {
            let sc = old(self).slab_count as int;
            assert(self.pools@[pool_idx as int].partial_list() =~= seq![sc as usize]);
            assert forall|q: int| 0 <= q < POOL_COUNT implies #[trigger] self.pool_ok(q) by {
                assert(old(self).pool_ok(q));
                let pool = self.pools@[q];
                if q != pool_idx as int {
                    assert(pool == old(self).pools@[q]);
                    assert forall|j: int| 0 <= j < pool.partial_list().len() implies self.entry_ok(
                        q,
                        #[trigger] pool.partial_list()[j] as int,
                    ) by {
                        let e = pool.partial_list()[j] as int;
                        assert(old(self).entry_ok(q, e));
                        assert(self.slabs@[e] == old(self).slabs@[e]);
                    }
                }
            }
            assert forall|i: int| 0 <= i < self.slab_count implies #[trigger] self.slab_ok(i) by {
                if i < sc {
                    assert(old(self).slab_ok(i));
                }
            }
        }
    }

    /// Take the lowest free slot of the pool's last partial slab; move the
    /// slab to the full list if it has no free slot left, else back to the
    /// partial list.
    fn take_slot(&mut self, pool_idx: usize, size: SlabSize) -> (r: Option<ColoredPtr>)
        requires
            old(self).wf(),
            pool_idx < POOL_COUNT,
            size.0 == pool_size(pool_idx as int),
            old(self).partial_list(pool_idx as int).len() > 0,
        ensures
            final(self).wf(),
            final(self).spec_base() == old(self).spec_base(),
            final(self).spec_count() == old(self).spec_count(),
            r matches Some(ptr) && ({
                let p = pool_idx as int;
                let idx = old(self).partial_list(p).last() as int;
                let bits0 = old(self).slab(idx).free_bits();
                let slot = first_set(bits0, 0);
                let exhausted = old(self).slab(idx).spec_free_count() == 1;
                let rest = old(self).partial_list(p).drop_last();
                &&& ptr.0 == pack(
                    (old(self).spec_base() + idx * SLAB_PAGE + slot * size.0) as usize,
                    Color::White,
                )
                &&& slot < spp(size.0)
                &&& final(self).slab(idx).spec_size() == size
                &&& final(self).slab(idx).free_bits() == bits0.update(slot, false)
                &&& final(self).slab(idx).spec_free_count() == old(self).slab(idx).spec_free_count()
                    - 1
                &&& forall|j: int|
                    0 <= j < old(self).spec_count() && j != idx ==> final(self).slab(j) == old(
                        self).slab(j)
                &&& final(self).partial_list(p) == if exhausted {
                    rest
                } else {
                    rest.push(idx as usize)
                }
                &&& final(self).full_list(p) == if exhausted {
                    old(self).full_list(p).push(idx as usize)
                } else {
                    old(self).full_list(p)
                }
                &&& forall|q: int|
                    0 <= q < POOL_COUNT && q != p ==> final(self).partial_list(q) == old(
                        self).partial_list(q) && final(self).full_list(q) == old(self).full_list(q)
            }),
    {
        proof {
            assert(self.pool_ok(pool_idx as int));
            lemma_spp_bounds(size.0);
        }
        let ghost pi = pool_idx as int;
        let ghost mlist = self.pools@[pi].partial_list();
        let ph = self.pools[pool_idx].partial_head - 1;
        self.pools[pool_idx].partial_head = ph;
        let taken = self.pools[pool_idx].partial[ph].take();
        proof {
            assert(self.pools@[pi].partial_list() =~= mlist.drop_last());
            assert(taken == Some(mlist.last()));
        }
        let ghost after_take = self.pools@[pi];
        let idx = match taken {
            Some(i) => i,
            None => return None,
        };
        let ghost ix = idx as int;
        proof {
            assert(old(self).entry_ok(pi, ix));
            assert(old(self).slab_ok(ix));
            assert(!mlist.drop_last().contains(idx)) by {
                if mlist.drop_last().contains(idx) {
                    let k = choose|k: int| 0 <= k < mlist.len() - 1 && mlist.drop_last()[k] == idx;
                    assert(mlist[k] == mlist[mlist.len() - 1]);
                }
            }
        }
        let mut slab = match self.slabs[idx].take() {
            Some(s) => s,
            None => return None,
        };
        proof {
            slab.lemma_bits_len();
            lemma_slot_below_spp(slab.free_bits(), spp(size.0));
            lemma_first_set(slab.free_bits(), 0);
        }
        let ghost bits0 = slab.free_bits();
        let slot = match slab.allocate() {
            Some(s) => s,
            None => {
                self.slabs.set(idx, Some(slab));
                return None;
            },
        };
        proof {
            lemma_slot_offset(slot as int, size.0);
            lemma_count_update(bits0, slot as int, false, spp(size.0));
        }
        let addr = slab.base() + slot as u64 * size.0 as u64;
        let has_free = slab.has_free();
        self.slabs.set(idx, Some(slab));
        let ghost before_lists = self.pools@[pi];
        if !has_free && self.pools[pool_idx].full_head < MAX_SLABS {
            let fh = self.pools[pool_idx].full_head;
            self.pools[pool_idx].full.set(fh, Some(idx));
            self.pools[pool_idx].full_head = fh + 1;
            proof {
                assert(self.pools@[pi].partial_list() =~= mlist.drop_last());
                assert(self.pools@[pi].full_list() =~= before_lists.full_list().push(idx));
            }
        } else {
            self.pools[pool_idx].add_partial(idx);
            proof {
                assert(self.pools@[pi].partial_list().len() == before_lists.partial_list().len() + 1);
            }
        }
        proof {
            assert(before_lists.partial_head == ph);
            assert(before_lists.full_head == old(self).pools@[pi].full_head);
            self.lemma_after_take(*old(self), pi, ix, slot as int, mlist);
        }
        Some(ColoredPtr::new(addr as usize, Color::White))
    }

    /// The allocator is consistent again after `take_slot` changed slab
    /// `ix` and the lists of pool `pi`.
    proof fn lemma_after_take(&self, pre: SlabAllocator, pi: int, ix: int, slot: int, mlist: Seq<usize>)
        requires
            pre.wf(),
            0 <= pi < POOL_COUNT,
            mlist == pre.pools@[pi].partial_list(),
            mlist.len() > 0,
            ix == mlist.last() as int,
            self.pools@.len() == POOL_COUNT,
            self.slabs@.len() == MAX_SLABS,
            self.slab_count == pre.slab_count,
            self.base == pre.base,
            forall|q: int| 0 <= q < POOL_COUNT && q != pi ==> self.pools@[q] == pre.pools@[q],
            forall|i: int| 0 <= i < MAX_SLABS && i != ix ==> self.slabs@[i] == pre.slabs@[i],
            self.slabs@[ix] is Some,
            self.pools@[pi].wf(),
            self.pools@[pi].size == pre.pools@[pi].size,
            self.pools@[pi].partial_head + self.pools@[pi].full_head == pre.pools@[pi].partial_head
                + pre.pools@[pi].full_head,
            self.pools@[pi].partial_list() == mlist.drop_last() || (self.pools@[pi].partial_list()
                == mlist.drop_last().push(ix as usize) && self.slabs@[ix].unwrap().spec_free_count()
                > 0),
            managed(self.slabs@[ix].unwrap(), (self.base + ix * SLAB_PAGE) as u64),
            self.slabs@[ix].unwrap().spec_size() == pre.slabs@[ix].unwrap().spec_size(),
        ensures
            self.wf(),
    {
        assert(pre.pool_ok(pi));
        assert(pre.entry_ok(pi, ix));
        assert(!mlist.drop_last().contains(ix as usize)) by {
            if mlist.drop_last().contains(ix as usize) {
                let k = choose|k: int| 0 <= k < mlist.len() - 1 && mlist.drop_last()[k] == ix;
                assert(mlist[k] == mlist[mlist.len() - 1]);
            }
        }
        assert(self.slab_ok(ix));
        assert forall|i: int| 0 <= i < self.slab_count implies #[trigger] self.slab_ok(i) by {
            if i != ix {
                assert(pre.slab_ok(i));
            }
        }
        assert forall|q: int| 0 <= q < POOL_COUNT implies #[trigger] self.pool_ok(q) by {
            assert(pre.pool_ok(q));
            let pool = self.pools@[q];
            assert forall|j: int| 0 <= j < pool.partial_list().len() implies self.entry_ok(
                q,
                #[trigger] pool.partial_list()[j] as int,
            ) by {
                let e = pool.partial_list()[j] as int;
                if q == pi {
                    if j < mlist.len() - 1 {
                        assert(mlist.drop_last()[j] == e);
                        assert(mlist[j] == e);
                        assert(pre.entry_ok(q, e));
                        assert(e != ix);
                    }
                } else {
                    assert(pre.entry_ok(q, e));
                    assert(pre.slabs@[e].unwrap().spec_size().0 == pool_size(q));
                    lemma_pool_size_injective(q, pi);
                    assert(e != ix);
                }
            }
            if q == pi {
                assert(mlist.drop_last().no_duplicates());
            }
        }
    }

    /// Free the slot at address `addr` of an object of `bytes` bytes: the
    /// slot is located by page (relative to the base) and by the slab size
    /// that fits `bytes`. Addresses below the base or past the last slab
    /// are ignored, as is a slot that is already free.
    pub fn free(&mut self, addr: u64, bytes: usize)
        requires
            old(self).wf(),
        ensures
            final(self).wf(),
            free_step(*old(self), addr, bytes, *final(self)),
            final(self).spec_base() == old(self).spec_base(),
            final(self).spec_count() == old(self).spec_count(),
            forall|q: int|
                0 <= q < POOL_COUNT ==> final(self).partial_list(q) == old(self).partial_list(q)
                    && final(self).full_list(q) == old(self).full_list(q),
            ({
                let off = addr - old(self).spec_base();
                let page = ((off / 4096) as usize) as int;
                let slot = (off % 4096) / (size_for(bytes as int) as int);
                if addr < old(self).spec_base() || page >= old(self).spec_count() {
                    forall|j: int|
                        0 <= j < old(self).spec_count() ==> final(self).slab(j) == old(self).slab(j)
                } else {
                    &&& forall|j: int|
                        0 <= j < old(self).spec_count() && j != page ==> final(self).slab(j) == old(
                            self).slab(j)
                    &&& final(self).slab(page).spec_size() == old(self).slab(page).spec_size()
                    &&& old(self).slab(page).free_bits()[slot] ==> final(self).slab(page).free_bits()
                        == old(self).slab(page).free_bits() && final(self).slab(page).spec_free_count() == old(self).slab(page).spec_free_count()
                    &&& !old(self).slab(page).free_bits()[slot] ==> final(self).slab(page).free_bits() == old(self).slab(page).free_bits().update(slot, true) && final(self).slab(page).spec_free_count() == old(self).slab(page).spec_free_count() + 1
                }
            }),
    {
        let size = SlabSize::for_bytes(bytes);
        let _pool_idx = match Self::pool_index(size) {
            Some(i) => i,
            None => return,
        };
        let base = self.base;
        if addr < base {
            return;
        }
        let off = addr - base;
        let page_idx = (off / 4096) as usize;
        let slot = ((off % 4096) / size.0 as u64) as u32;
        if page_idx >= self.slab_count {
            return;
        }
        proof {
            assert(self.slab_ok(page_idx as int));
            lemma_spp_bounds(size.0);
            assert(((off % 4096) as int) / (size.0 as int) < 256) by (nonlinear_arith)
                requires
                    off % 4096 < 4096,
                    size.0 >= 16,
            ;
        }
        let mut slab = match self.slabs[page_idx].take() {
            Some(s) => s,
            None => return,
        };
        let ghost bits0 = slab.free_bits();
        let ghost s_size = slab.spec_size().0;
        proof {
            slab.lemma_bits_len();
            lemma_spp_bounds(s_size);
        }
        slab.free(slot);
        proof {
            if !bits0[slot as int] {
                assert(slot < spp(s_size));
                lemma_count_update(bits0, slot as int, true, spp(s_size));
            }
        }
        self.slabs.set(page_idx, Some(slab));
        proof {
            let pi = page_idx as int;
            assert(self.slab_ok(pi));
            assert forall|i: int| 0 <= i < self.slab_count implies #[trigger] self.slab_ok(i) by {
                if i != pi {
                    assert(old(self).slab_ok(i));
                }
            }
            assert forall|q: int| 0 <= q < POOL_COUNT implies #[trigger] self.pool_ok(q) by {
                assert(old(self).pool_ok(q));
                let pool = self.pools@[q];
                assert forall|j: int| 0 <= j < pool.partial_list().len() implies self.entry_ok(
                    q,
                    #[trigger] pool.partial_list()[j] as int,
                ) by {
                    assert(old(self).entry_ok(q, pool.partial_list()[j] as int));
                }
            }
        }
    }

    fn pool_index(size: SlabSize) -> (r: Option<usize>)
        ensures
            (size.0 == 16 || size.0 == 32 || size.0 == 64 || size.0 == 128 || size.0 == 256
                || size.0 == 512) ==> r == Some(pool_of(size.0) as usize),
            !(size.0 == 16 || size.0 == 32 || size.0 == 64 || size.0 == 128 || size.0 == 256
                || size.0 == 512) ==> r is None,
    {
        match size.0 {
            16 => Some(0),
            32 => Some(1),
            64 => Some(2),
            128 => Some(3),
            256 => Some(4),
            512 => Some(5),
            _ => None,
        }
    }
}

/// What a successful `allocate(bytes)` returning `ptr` did to the slabs,
/// from `pre` to `post`.
pub open spec fn allocate_step(pre: SlabAllocator, bytes: usize, post: SlabAllocator, ptr: ColoredPtr) -> bool {
    let sz = size_for(bytes as int);
    let idx = pre.alloc_slab(bytes);
    let slot = pre.alloc_slot(bytes);
    &&& bytes <= 512
    &&& !pre.grows(bytes) ==> pre.partial_list(SlabAllocator::alloc_pool(bytes)).len() > 0
    &&& post.spec_base() == pre.spec_base()
    &&& ptr.0 == pack((pre.spec_base() + idx * SLAB_PAGE + slot * sz) as usize, Color::White)
    &&& slot < spp(sz)
    &&& pre.alloc_bits(bytes)[slot]
    &&& post.spec_count() == pre.spec_count() + if pre.grows(bytes) {
        1int
    } else {
        0int
    }
    &&& post.slab(idx).spec_size().0 == sz
    &&& post.slab(idx).free_bits() == pre.alloc_bits(bytes).update(slot, false)
    &&& forall|j: int| 0 <= j < pre.spec_count() && j != idx ==> post.slab(j) == pre.slab(j)
}

/// `post` has the same base and the same slabs as `pre`.
pub open spec fn same_slabs(pre: SlabAllocator, post: SlabAllocator) -> bool {
    &&& post.spec_base() == pre.spec_base()
    &&& post.spec_count() == pre.spec_count()
    &&& forall|j: int| 0 <= j < pre.spec_count() ==> post.slab(j) == pre.slab(j)
}

/// What `free(addr, bytes)` did to the slabs, from `pre` to `post`: the
/// slot that `addr` and the size fitting `bytes` name is free again; all
/// else stays.
pub open spec fn free_step(pre: SlabAllocator, addr: u64, bytes: usize, post: SlabAllocator) -> bool {
    let off = addr - pre.spec_base();
    let page = ((off / 4096) as usize) as int;
    let slot = (off % 4096) / (size_for(bytes as int) as int);
    &&& post.spec_base() == pre.spec_base()
    &&& post.spec_count() == pre.spec_count()
    &&& addr >= pre.spec_base() && page < pre.spec_count() ==> {
        &&& forall|j: int| 0 <= j < pre.spec_count() && j != page ==> post.slab(j) == pre.slab(j)
        &&& post.slab(page).spec_size() == pre.slab(page).spec_size()
        &&& pre.slab(page).free_bits()[slot] ==> post.slab(page).free_bits() == pre.slab(
            page,
        ).free_bits()
        &&& !pre.slab(page).free_bits()[slot] ==> post.slab(page).free_bits() == pre.slab(
            page,
        ).free_bits().update(slot, true)
    }
    &&& !(addr >= pre.spec_base() && page < pre.spec_count()) ==> forall|j: int|
        0 <= j < pre.spec_count() ==> post.slab(j) == pre.slab(j)
}

/// A block handed out and not yet freed: slab page `b.0`, slot `b.1`.
/// Blocks are live in `a` when each lies in a created slab, below its
/// slots per page, with its free bit clear.
pub open spec fn live_ok(a: SlabAllocator, blocks: Set<(int, int)>) -> bool {
    forall|b: (int, int)|
        #[trigger] blocks.contains(b) ==> 0 <= b.0 < a.spec_count() && 0 <= b.1 < spp(
            a.slab(b.0).spec_size().0,
        ) && !a.slab(b.0).free_bits()[b.1]
}

/// The first address of block `b`.
pub open spec fn block_start(a: SlabAllocator, b: (int, int)) -> int {
    a.spec_base() + b.0 * SLAB_PAGE + b.1 * a.slab(b.0).spec_size().0
}

/// The size of block `b`: its slab's slot size.
pub open spec fn block_size(a: SlabAllocator, b: (int, int)) -> int {
    a.slab(b.0).spec_size().0 as int
}

/// Every created slab has one of the standard slot sizes.
pub proof fn lemma_slab_size(a: SlabAllocator, i: int)
    requires
        a.wf(),
        0 <= i < a.spec_count(),
    ensures
        pool_size(pool_of(a.slab(i).spec_size().0)) == a.slab(i).spec_size().0,
        a.slab(i).spec_size().0 > 0,
        spp(a.slab(i).spec_size().0) * a.slab(i).spec_size().0 == SLAB_PAGE,
{
    assert(a.slab_ok(i));
    lemma_spp_bounds(a.slab(i).spec_size().0);
}

/// The slab an allocation takes its slot from without growing is a created
/// slab of the requested size.
pub proof fn lemma_partial_slab(a: SlabAllocator, bytes: usize)
    requires
        a.wf(),
        bytes <= 512,
        a.partial_list(SlabAllocator::alloc_pool(bytes)).len() > 0,
    ensures
        0 <= a.partial_list(SlabAllocator::alloc_pool(bytes)).last() < a.spec_count(),
        a.slab(a.partial_list(SlabAllocator::alloc_pool(bytes)).last() as int).spec_size().0
            == size_for(bytes as int),
{
    let p = SlabAllocator::alloc_pool(bytes);
    assert(a.pool_ok(p));
    let l = a.partial_list(p);
    assert(a.entry_ok(p, l[l.len() - 1] as int));
}

/// Operations that leave the slabs alone keep every live block live, in
/// place.
pub proof fn law_same_slabs_keep_live(pre: SlabAllocator, post: SlabAllocator, blocks: Set<(int, int)>)
    requires
        live_ok(pre, blocks),
        same_slabs(pre, post),
    ensures
        live_ok(post, blocks),
        forall|c: (int, int)|
            #[trigger] blocks.contains(c) ==> block_start(post, c) == block_start(pre, c)
                && block_size(post, c) == block_size(pre, c),
{
}

/// Slab allocation never overlaps a live block. Given blocks live in `pre`,
/// the block a successful `allocate` hands out is none of them, starts at
/// the returned address, has the size fitting the request, and is disjoint
/// from each of them; they stay live, in place, and together with the new
/// block are live in `post`. With `law_free_live` and
/// `law_same_slabs_keep_live` (and no block live in a new allocator), this
/// holds after any history of allocations and frees of live blocks.
pub proof fn law_allocate_disjoint(
    pre: SlabAllocator,
    bytes: usize,
    post: SlabAllocator,
    ptr: ColoredPtr,
    blocks: Set<(int, int)>,
)
    requires
        pre.wf(),
        live_ok(pre, blocks),
        allocate_step(pre, bytes, post, ptr),
    ensures
        ({
            let b = (pre.alloc_slab(bytes), pre.alloc_slot(bytes));
            &&& !blocks.contains(b)
            &&& ptr.0 == pack(block_start(post, b) as usize, Color::White)
            &&& block_size(post, b) == size_for(bytes as int)
            &&& live_ok(post, blocks.insert(b))
            &&& forall|c: (int, int)|
                #[trigger] blocks.contains(c) ==> block_start(post, c) == block_start(pre, c)
                    && block_size(post, c) == block_size(pre, c)
            &&& forall|c: (int, int)|
                #[trigger] blocks.contains(c) ==> block_start(post, b) + block_size(post, b)
                    <= block_start(post, c) || block_start(post, c) + block_size(post, c)
                    <= block_start(post, b)
        }),
{
    let sz = size_for(bytes as int);
    let idx = pre.alloc_slab(bytes);
    let slot = pre.alloc_slot(bytes);
    let b = (idx, slot);
    if !pre.grows(bytes) {
        lemma_partial_slab(pre, bytes);
    }
    assert(0 <= idx < post.spec_count());
    lemma_first_set(pre.alloc_bits(bytes), 0);
    assert(0 <= slot);
    lemma_slot_in_page(slot, sz);
    assert forall|c: (int, int)| #[trigger] blocks.contains(c) implies c != b && block_start(post, c)
        == block_start(pre, c) && block_size(post, c) == block_size(pre, c) && 0 <= c.0 < post.spec_count()
        && 0 <= c.1 < spp(post.slab(c.0).spec_size().0) && !post.slab(c.0).free_bits()[c.1] by {
        lemma_slab_size(pre, c.0);
        pre.slab(c.0).lemma_bits_len();
        post.slab(c.0).lemma_bits_len();
        lemma_spp_bounds(pre.slab(c.0).spec_size().0);
        if c.0 == idx {
            assert(!pre.grows(bytes));
            assert(pre.alloc_bits(bytes) == pre.slab(idx).free_bits());
            assert(c.1 != slot);
        }
    }
    assert forall|c: (int, int)| #[trigger] blocks.contains(c) implies block_start(post, b)
        + block_size(post, b) <= block_start(post, c) || block_start(post, c) + block_size(post, c)
        <= block_start(post, b) by {
        lemma_slab_size(pre, c.0);
        lemma_slot_in_page(c.1, pre.slab(c.0).spec_size().0);
        law_slots_disjoint(
            pre.spec_base() as int,
            idx,
            slot,
            sz as int,
            c.0,
            c.1,
            pre.slab(c.0).spec_size().0 as int,
        );
    }
    assert forall|c: (int, int)| #[trigger] blocks.insert(b).contains(c) implies 0 <= c.0
        < post.spec_count() && 0 <= c.1 < spp(post.slab(c.0).spec_size().0) && !post.slab(
        c.0,
    ).free_bits()[c.1] by {
        post.slab(idx).lemma_bits_len();
        if !pre.grows(bytes) {
            pre.slab(idx).lemma_bits_len();
        }
        lemma_spp_bounds(sz);
        if c != b {
            assert(blocks.contains(c));
        } else {
            assert(pre.alloc_bits(bytes).len() == SLAB_BITS);
            assert(!post.slab(idx).free_bits()[slot]);
        }
    }
}

/// Freeing a live block with its address and a size that fits it frees
/// exactly that block: its slot is free again, and every other live block
/// stays live, in place.
pub proof fn law_free_live(
    pre: SlabAllocator,
    addr: u64,
    bytes: usize,
    post: SlabAllocator,
    blocks: Set<(int, int)>,
    b: (int, int),
)
    requires
        pre.wf(),
        live_ok(pre, blocks),
        blocks.contains(b),
        addr == block_start(pre, b),
        size_for(bytes as int) == block_size(pre, b),
        free_step(pre, addr, bytes, post),
    ensures
        post.slab(b.0).free_bits()[b.1],
        live_ok(post, blocks.remove(b)),
        forall|c: (int, int)|
            #[trigger] blocks.remove(b).contains(c) ==> block_start(post, c) == block_start(pre, c)
                && block_size(post, c) == block_size(pre, c),
{
    let sz = pre.slab(b.0).spec_size().0;
    lemma_slab_size(pre, b.0);
    lemma_slot_in_page(b.1, sz);
    let off = addr - pre.spec_base();
    assert(off == b.0 * 4096 + b.1 * sz);
    assert(0 <= b.1 * sz) by (nonlinear_arith)
        requires
            0 <= b.1,
            sz > 0,
    ;
    assert(off / 4096 == b.0 && off % 4096 == b.1 * sz) by (nonlinear_arith)
        requires
            off == b.0 * 4096 + b.1 * sz,
            0 <= b.1 * sz,
            b.1 * sz + sz <= 4096,
            0 <= b.0,
    ;
    assert((b.1 * sz) / (sz as int) == b.1) by (nonlinear_arith)
        requires
            sz > 0,
            0 <= b.1,
    ;
    assert(((off / 4096) as usize) as int == b.0);
    pre.slab(b.0).lemma_bits_len();
    post.slab(b.0).lemma_bits_len();
    lemma_spp_bounds(sz);
    assert forall|c: (int, int)| #[trigger] blocks.remove(b).contains(c) implies block_start(post, c)
        == block_start(pre, c) && block_size(post, c) == block_size(pre, c) && 0 <= c.0 < post.spec_count()
        && 0 <= c.1 < spp(post.slab(c.0).spec_size().0) && !post.slab(c.0).free_bits()[c.1] by {
        assert(blocks.contains(c));
        lemma_slab_size(pre, c.0);
        pre.slab(c.0).lemma_bits_len();
        post.slab(c.0).lemma_bits_len();
        lemma_spp_bounds(pre.slab(c.0).spec_size().0);
        if c.0 == b.0 {
            assert(c.1 != b.1);
        }
    }
}

/// Freeing the address an allocation handed out undoes it: the address
/// maps back to the same slab page and slot, and marking that slot free
/// again restores the slab's free bits.
pub proof fn law_allocate_free(base: u64, idx: int, slot: int, sz: u32, bits: Seq<bool>)
    requires
        pool_size(pool_of(sz)) == sz,
        0 <= idx < MAX_SLABS,
        0 <= slot < spp(sz),
        slot < bits.len(),
        bits[slot],
        base + (idx + 1) * SLAB_PAGE <= 0x1_0000_0000_0000_0000,
    ensures
        ({
            let addr = base + idx * SLAB_PAGE + slot * sz;
            let off = addr - base;
            &&& off / 4096 == idx
            &&& (off % 4096) / (sz as int) == slot
            &&& bits.update(slot, false).update(slot, true) == bits
        }),
{
    lemma_slot_offset(slot, sz);
    let within = slot * sz;
    assert((idx * 4096 + within) / 4096 == idx && (idx * 4096 + within) % 4096 == within)
        by (nonlinear_arith)
        requires
            0 <= within < 4096,
            0 <= idx,
    ;
    assert(within / (sz as int) == slot) by (nonlinear_arith)
        requires
            within == slot * sz,
            sz > 0,
            slot >= 0,
    ;
    assert(bits.update(slot, false).update(slot, true) =~= bits);
}

/// Slots per page of a standard size lie between 8 and 256, and fill the
/// page exactly.
proof fn lemma_spp_bounds(s: u32)
    requires
        pool_size(pool_of(s)) == s,
    ensures
        8 <= spp(s) <= 256,
        spp(s) * s == 4096,
{
}

/// A slot below the slots per page starts within the page.
proof fn lemma_slot_offset(slot: int, s: u32)
    requires
        pool_size(pool_of(s)) == s,
        0 <= slot < spp(s),
    ensures
        0 <= slot * s <= 4096 - s,
{
    lemma_spp_bounds(s);
    assert(slot * s <= (spp(s) - 1) * s) by (nonlinear_arith)
        requires
            slot <= spp(s) - 1,
            s > 0,
    ;
    assert(0 <= slot * s) by (nonlinear_arith)
        requires
            slot >= 0,
            s > 0,
    ;
}

/// Different pools serve different sizes.
proof fn lemma_pool_size_injective(p: int, q: int)
    requires
        0 <= p < POOL_COUNT,
        0 <= q < POOL_COUNT,
        p != q,
    ensures
        pool_size(p) != pool_size(q),
{
}

/// If some bit below `n` is set, the lowest set bit is below `n`.
proof fn lemma_slot_below_spp(b: Seq<bool>, n: int)
    requires
        0 <= n <= b.len(),
    ensures
        count_set(b, n) > 0 ==> first_set(b, 0) < n,
{
    lemma_first_set(b, 0);
    if first_set(b, 0) >= n {
        lemma_none_set_below(b, n);
    }
}

/// With no set bit below `n`, the count below `n` is zero.
proof fn lemma_none_set_below(b: Seq<bool>, n: int)
    requires
        0 <= n <= b.len(),
        forall|j: int| 0 <= j < n ==> !b[j],
    ensures
        count_set(b, n) == 0,
    decreases n,
{
    if n > 0 {
        lemma_none_set_below(b, n - 1);
    }
}

/// Slots are disjoint blocks: two different slots of one slab page (which
/// holds a single slot size), or slots of two different pages, never
/// overlap. With `allocate` handing out only a slot whose free bit was set
/// (and clearing it), a handed-out block never overlaps a block that is
/// still allocated.
pub proof fn law_slots_disjoint(base: int, i1: int, s1: int, sz1: int, i2: int, s2: int, sz2: int)
    requires
        0 <= i1,
        0 <= i2,
        0 <= s1,
        0 <= s2,
        0 < sz1,
        0 < sz2,
        s1 * sz1 + sz1 <= SLAB_PAGE,
        s2 * sz2 + sz2 <= SLAB_PAGE,
        i1 == i2 ==> sz1 == sz2 && s1 != s2,
    ensures
        base + i1 * SLAB_PAGE + s1 * sz1 + sz1 <= base + i2 * SLAB_PAGE + s2 * sz2 || base + i2
            * SLAB_PAGE + s2 * sz2 + sz2 <= base + i1 * SLAB_PAGE + s1 * sz1,
{
    if i1 == i2 {
        if s1 < s2 {
            assert(s1 * sz1 + sz1 <= s2 * sz1) by (nonlinear_arith)
                requires
                    s1 < s2,
                    0 < sz1,
            ;
        } else {
            assert(s2 * sz1 + sz1 <= s1 * sz1) by (nonlinear_arith)
                requires
                    s2 < s1,
                    0 < sz1,
            ;
        }
    } else if i1 < i2 {
        assert(i1 * 4096 + 4096 <= i2 * 4096) by (nonlinear_arith)
            requires
                i1 < i2,
        ;
        assert(0 <= s2 * sz2) by (nonlinear_arith)
            requires
                0 <= s2,
                0 < sz2,
        ;
    } else {
        assert(i2 * 4096 + 4096 <= i1 * 4096) by (nonlinear_arith)
            requires
                i2 < i1,
        ;
        assert(0 <= s1 * sz1) by (nonlinear_arith)
            requires
                0 <= s1,
                0 < sz1,
        ;
    }
}

/// A slot below the slots-per-page count of its size lies within the page.
pub proof fn lemma_slot_in_page(slot: int, sz: u32)
    requires
        0 <= slot < spp(sz),
        sz > 0,
    ensures
        slot * sz + sz <= SLAB_PAGE,
{
    assert(slot * sz + sz <= 4096) by (nonlinear_arith)
        requires
            0 <= slot < 4096int / (sz as int),
            sz > 0,
    ;
}

} // verus!
