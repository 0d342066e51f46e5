//! A single slab: a page containing a fixed number of slots.
use crate::bits::{bit_set, lemma_clear_bit, lemma_set_bit, lemma_shift_test, lemma_zero_and_full};
use crate::slab::size::SlabSize;
use vstd::prelude::*;
use vstd::std_specs::bits::{axiom_u64_trailing_zeros, u64_trailing_zeros};

verus! {

/// Number of bitmap words of a slab.
pub const SLAB_WORDS: usize = 8;

/// Number of slot bits of a slab.
pub const SLAB_BITS: usize = 512;

/// Slab header. A set bitmap bit marks a free slot.
pub struct Slab {
    size: SlabSize,
    bitmap: Vec<u64>,
    next: Option<usize>,
    free_count: u32,
    base: u64,
}

/// Number of set bits among the first `n` of `b`.
pub open spec fn count_set(b: Seq<bool>, n: int) -> int
    decreases n,
{
    if n <= 0 {
        0
    } else {
        count_set(b, n - 1) + if n - 1 < b.len() && b[n - 1] {
            1int
        } else {
            0int
        }
    }
}

/// The lowest set bit of `b` at or after `from`, or `b.len()`.
pub open spec fn first_set(b: Seq<bool>, from: int) -> int
    decreases b.len() - from,
{
    if from < 0 || from >= b.len() {
        b.len() as int
    } else if b[from] {
        from
    } else {
        first_set(b, from + 1)
    }
}

impl Slab {
    /// Which slots are free, by slot index.
    pub closed spec fn free_bits(&self) -> Seq<bool> {
        Seq::new(
            SLAB_BITS as nat,
            |i: int| bit_set(self.bitmap@[i / 64], (i % 64) as u64),
        )
    }

    /// A slab has `SLAB_BITS` slot bits.
    pub proof fn lemma_bits_len(&self)
        ensures
            self.free_bits().len() == SLAB_BITS,
    {
    }

    /// The recorded number of free slots.
    pub closed spec fn spec_free_count(&self) -> u32 {
        self.free_count
    }

    /// The slab's slot size.
    pub closed spec fn spec_size(&self) -> SlabSize {
        self.size
    }

    /// The base address of the slab's page.
    pub closed spec fn spec_base(&self) -> u64 {
        self.base
    }

    /// The link to the next slab in a list.
    pub closed spec fn spec_next(&self) -> Option<usize> {
        self.next
    }

    /// Internal consistency: `SLAB_WORDS` bitmap words, and the free count
    /// never exceeds the set bits by more than a page's worth of slots.
    pub closed spec fn wf(&self) -> bool {
        &&& self.bitmap@.len() == SLAB_WORDS
        &&& self.free_count <= 4096 + count_set(self.free_bits(), SLAB_BITS as int)
    }

    /// Construct a slab for `size` at `base` address, with no free slots.
    pub fn new(size: SlabSize, base: u64) -> (r: Slab)
        ensures
            r.wf(),
            r.spec_size() == size,
            r.spec_base() == base,
            r.spec_next() is None,
            r.spec_free_count() == 0,
            r.free_bits() == Seq::new(SLAB_BITS as nat, |i: int| false),
    {
        let mut bitmap: Vec<u64> = Vec::new();
        while bitmap.len() < SLAB_WORDS
            invariant
                bitmap@.len() <= SLAB_WORDS,
                forall|i: int| 0 <= i < bitmap@.len() ==> bitmap@[i] == 0,
            decreases SLAB_WORDS - bitmap@.len(),
        {
            bitmap.push(0);
        }
        let r = Slab { size, bitmap, next: None, free_count: 0, base };
        assert forall|i: int| 0 <= i < SLAB_BITS implies !r.free_bits()[i] by {
            lemma_zero_and_full((i % 64) as u64);
        }
        assert(r.free_bits() =~= Seq::new(SLAB_BITS as nat, |i: int| false));
        proof {
            lemma_count_bounds(r.free_bits(), SLAB_BITS as int);
        }
        r
    }

    /// Initialize the free list to "all free": every bitmap bit set and
    /// the free count set to the slots per page.
    pub fn init_full(&mut self)
        requires
            old(self).wf(),
            old(self).spec_size().0 > 0,
        ensures
            final(self).wf(),
            final(self).spec_size() == old(self).spec_size(),
            final(self).spec_base() == old(self).spec_base(),
            final(self).spec_next() == old(self).spec_next(),
            final(self).spec_free_count() == 4096int / (old(self).spec_size().0 as int),
            final(self).free_bits() == Seq::new(SLAB_BITS as nat, |i: int| true),
    {
        self.free_count = self.size.slots_per_page();
        let mut w: usize = 0;
        while w < self.bitmap.len()
            invariant
                self.bitmap@.len() == SLAB_WORDS,
                self.size == old(self).size,
                self.base == old(self).base,
                self.next == old(self).next,
                self.free_count == 4096int / (old(self).size.0 as int),
                old(self).size.0 > 0,
                w <= SLAB_WORDS,
                forall|i: int| 0 <= i < w ==> self.bitmap@[i] == u64::MAX,
            decreases SLAB_WORDS - w,
        {
            self.bitmap.set(w, u64::MAX);
            w = w + 1;
        }
        assert forall|i: int| 0 <= i < SLAB_BITS implies self.free_bits()[i] by {
            lemma_zero_and_full((i % 64) as u64);
        }
        assert(self.free_bits() =~= Seq::new(SLAB_BITS as nat, |i: int| true));
        proof {
            lemma_count_all_set(self.free_bits(), SLAB_BITS as int);
            assert(4096int / (self.size.0 as int) <= 4096) by (nonlinear_arith)
                requires
                    self.size.0 > 0,
            ;
        }
    }

    /// Allocate the lowest free slot. Returns the slot index, or `None` if
    /// the free count is zero or no slot is free.
    pub fn allocate(&mut self) -> (r: Option<u32>)
        requires
            old(self).wf(),
        ensures
            final(self).wf(),
            final(self).spec_size() == old(self).spec_size(),
            final(self).spec_base() == old(self).spec_base(),
            final(self).spec_next() == old(self).spec_next(),
            (old(self).spec_free_count() == 0 || first_set(old(self).free_bits(), 0)
                == SLAB_BITS) ==> r is None && final(self).free_bits() == old(self).free_bits()
                && final(self).spec_free_count() == old(self).spec_free_count(),
            (old(self).spec_free_count() > 0 && first_set(old(self).free_bits(), 0) < SLAB_BITS)
                ==> ({
                let s = first_set(old(self).free_bits(), 0);
                &&& r == Some(s as u32)
                &&& final(self).free_bits() == old(self).free_bits().update(s, false)
                &&& final(self).spec_free_count() == old(self).spec_free_count() - 1
            }),
    {
        proof {
            lemma_first_set(self.free_bits(), 0);
        }
        if self.free_count == 0 {
            return None;
        }
        let mut w: usize = 0;
        while w < self.bitmap.len()
            invariant
                self.wf(),
                *self == *old(self),
                self.free_count > 0,
                w <= SLAB_WORDS,
                forall|i: int| 0 <= i < w * 64 ==> !self.free_bits()[i],
            decreases SLAB_WORDS - w,
        {
            let word = self.bitmap[w];
            if word != 0 {
                let bit = word.trailing_zeros();
                proof {
                    axiom_u64_trailing_zeros(word);
                    assert(bit < 64);
                    lemma_shift_test(word, bit as u64);
                    assert forall|j: int| w * 64 <= j < w * 64 + bit implies !self.free_bits()[j] by {
                        assert(j / 64 == w as int && j % 64 == j - w * 64);
                        lemma_shift_test(word, (j % 64) as u64);
                    }
                    let s = w * 64 + bit;
                    assert(s / 64 == w as int && s % 64 == bit as int);
                    assert(self.free_bits()[s]);
                    lemma_first_set_is(self.free_bits(), s);
                }
                let ghost before = self.free_bits();
                let ghost s = w * 64 + bit;
                self.bitmap.set(w, word & !(1u64 << (bit as u64)));
                self.free_count = self.free_count - 1;
                proof {
                    assert forall|i: int| 0 <= i < SLAB_BITS implies self.free_bits()[i] == before.update(
                        s,
                        false,
                    )[i] by {
                        if i / 64 == w as int {
                            lemma_clear_bit(word, bit as u64, (i % 64) as u64);
                        }
                    }
                    assert(self.free_bits() =~= before.update(s, false));
                    lemma_count_update(before, s, false, SLAB_BITS as int);
                }
                return Some((w as u32) * 64 + bit);
            }
            proof {
                assert forall|j: int| w * 64 <= j < w * 64 + 64 implies !self.free_bits()[j] by {
                    assert(j / 64 == w as int);
                    lemma_zero_and_full((j % 64) as u64);
                }
            }
            w = w + 1;
        }
        proof {
            lemma_first_set_none(self.free_bits());
        }
        None
    }

    /// Free a slot by index: mark it free and count it, unless it is
    /// already free.
    pub fn free(&mut self, slot: u32)
        requires
            old(self).wf(),
            slot < SLAB_BITS,
        ensures
            final(self).wf(),
            final(self).spec_size() == old(self).spec_size(),
            final(self).spec_base() == old(self).spec_base(),
            final(self).spec_next() == old(self).spec_next(),
            old(self).free_bits()[slot as int] ==> final(self).free_bits() == old(self).free_bits()
                && final(self).spec_free_count() == old(self).spec_free_count(),
            !old(self).free_bits()[slot as int] ==> final(self).free_bits() == old(
                self).free_bits().update(slot as int, true) && final(self).spec_free_count() == old(
                self).spec_free_count() + 1,
    {
        let w = (slot / 64) as usize;
        let b = slot % 64;
        let word = self.bitmap[w];
        proof {
            assert((slot as int) / 64 == w as int && (slot as int) % 64 == b as int);
        }
        if (word & (1u64 << (b as u64))) == 0 {
            let ghost before = self.free_bits();
            self.bitmap.set(w, word | (1u64 << (b as u64)));
            proof {
                assert forall|i: int| 0 <= i < SLAB_BITS implies self.free_bits()[i] == before.update(
                    slot as int,
                    true,
                )[i] by {
                    if i / 64 == w as int {
                        lemma_set_bit(word, b as u64, (i % 64) as u64);
                    }
                }
                assert(self.free_bits() =~= before.update(slot as int, true));
                lemma_count_update(before, slot as int, true, SLAB_BITS as int);
                lemma_count_bounds(before, SLAB_BITS as int);
            }
            self.free_count = self.free_count + 1;
        }
    }

    /// Whether the slab has any free slots (by its free count).
    pub fn has_free(&self) -> (r: bool)
        ensures
            r == (self.spec_free_count() > 0),
    {
        self.free_count > 0
    }

    /// Number of free slots.
    pub fn free_count(&self) -> (r: u32)
        ensures
            r == self.spec_free_count(),
    {
        self.free_count
    }

    /// Number of used slots.
    pub fn used(&self) -> (r: u32)
        requires
            self.spec_size().0 > 0,
            self.spec_free_count() <= 4096int / (self.spec_size().0 as int),
        ensures
            r == 4096int / (self.spec_size().0 as int) - self.spec_free_count(),
    {
        self.size.slots_per_page() - self.free_count
    }

    /// Total slot count.
    pub fn total(&self) -> (r: u32)
        requires
            self.spec_size().0 > 0,
        ensures
            r == 4096int / (self.spec_size().0 as int),
    {
        self.size.slots_per_page()
    }

    /// Base address of the underlying memory.
    pub fn base(&self) -> (r: u64)
        ensures
            r == self.spec_base(),
    {
        self.base
    }

    /// Slab size.
    pub fn size(&self) -> (r: SlabSize)
        ensures
            r == self.spec_size(),
    {
        self.size
    }

    /// Next slab in the partial list.
    pub fn next(&self) -> (r: Option<usize>)
        ensures
            r == self.spec_next(),
    {
        self.next
    }

    /// Set the next pointer.
    pub fn set_next(&mut self, n: Option<usize>)
        requires
            old(self).wf(),
        ensures
            final(self).wf(),
            final(self).spec_next() == n,
            final(self).spec_size() == old(self).spec_size(),
            final(self).spec_base() == old(self).spec_base(),
            final(self).spec_free_count() == old(self).spec_free_count(),
            final(self).free_bits() == old(self).free_bits(),
    {
        self.next = n;
    }
}

/// What `first_set` finds.
pub proof fn lemma_first_set(b: Seq<bool>, from: int)
    requires
        0 <= from,
    ensures
        from <= first_set(b, from) <= b.len() || (from > b.len() && first_set(b, from) == b.len()),
        first_set(b, from) < b.len() ==> b[first_set(b, from)],
        forall|j: int| from <= j < first_set(b, from) && j < b.len() ==> !b[j],
    decreases b.len() - from,
{
    if from < b.len() {
        lemma_first_set(b, from + 1);
    }
}

/// A set bit with no set bit below it is the lowest set bit.
pub proof fn lemma_first_set_is(b: Seq<bool>, s: int)
    requires
        0 <= s < b.len(),
        b[s],
        forall|j: int| 0 <= j < s ==> !b[j],
    ensures
        first_set(b, 0) == s,
{
    lemma_first_set(b, 0);
}

/// With no set bit, `first_set` reports the length.
proof fn lemma_first_set_none(b: Seq<bool>)
    requires
        forall|j: int| 0 <= j < b.len() ==> !b[j],
    ensures
        first_set(b, 0) == b.len(),
{
    lemma_first_set(b, 0);
}

/// The count of set bits is between zero and the number counted.
pub proof fn lemma_count_bounds(b: Seq<bool>, n: int)
    requires
        0 <= n,
    ensures
        0 <= count_set(b, n) <= n,
    decreases n,
{
    if n > 0 {
        lemma_count_bounds(b, n - 1);
    }
}

/// When all bits are set, every counted bit is set.
pub proof fn lemma_count_all_set(b: Seq<bool>, n: int)
    requires
        0 <= n <= b.len(),
        forall|j: int| 0 <= j < b.len() ==> b[j],
    ensures
        count_set(b, n) == n,
    decreases n,
{
    if n > 0 {
        lemma_count_all_set(b, n - 1);
    }
}

/// Changing one bit inside the counted range changes the count by one.
pub proof fn lemma_count_update(b: Seq<bool>, s: int, v: bool, n: int)
    requires
        0 <= s < b.len(),
        0 <= n <= b.len(),
    ensures
        count_set(b.update(s, v), n) == count_set(b, n) + if s < n {
            (if v {
                1int
            } else {
                0int
            }) - (if b[s] {
                1int
            } else {
                0int
            })
        } else {
            0int
        },
    decreases n,
{
    if n > 0 {
        lemma_count_update(b, s, v, n - 1);
    }
}

} // verus!
