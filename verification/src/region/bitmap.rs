//! Mark bitmap for a single region.
use crate::bits::{bit_set, lemma_clear_bit, lemma_set_bit, lemma_shift_test, lemma_zero_and_full};
use crate::region::REGION_SIZE;
use vstd::prelude::*;

verus! {

/// One bit per 8-byte slot.
pub const BITMAP_BYTES: usize = REGION_SIZE / 8 / 8;

/// Number of 64-bit words in a bitmap (`BITMAP_BYTES / 8`).
pub const BITMAP_WORDS: usize = 2048;

/// Number of slots a bitmap covers: one per 8-byte slot of a region.
pub const BITMAP_SLOTS: usize = REGION_SIZE / 8;

/// Mark bitmap. One bit per 8-byte slot: offsets below `BITMAP_SLOTS`.
pub struct MarkBitmap {
    bits: Vec<u64>,
    count: usize,
}

/// The offsets marked in `v`, below `n`, in increasing order.
pub open spec fn marked_upto(v: Seq<bool>, n: int) -> Seq<usize>
    decreases n,
{
    if n <= 0 {
        Seq::empty()
    } else {
        let prev = marked_upto(v, n - 1);
        if n - 1 < v.len() && v[n - 1] {
            prev.push((n - 1) as usize)
        } else {
            prev
        }
    }
}

impl View for MarkBitmap {
    type V = Seq<bool>;

    /// Entry `o` tells whether offset `o` is marked.
    closed spec fn view(&self) -> Seq<bool> {
        Seq::new(
            self.count as nat,
            |o: int| bit_set(self.bits@[o / 64], (o % 64) as u64),
        )
    }
}

impl MarkBitmap {
    /// Internal consistency: `BITMAP_WORDS` words holding `BITMAP_SLOTS`
    /// bits.
    pub closed spec fn wf(&self) -> bool {
        &&& self.bits@.len() == BITMAP_WORDS
        &&& self.count == BITMAP_SLOTS
    }

    /// Construct a clear bitmap.
    pub fn new() -> (r: MarkBitmap)
        ensures
            r.wf(),
            r@ == Seq::new(BITMAP_SLOTS as nat, |o: int| false),
    {
        let mut bits: Vec<u64> = Vec::new();
        while bits.len() < BITMAP_WORDS
            invariant
                bits@.len() <= BITMAP_WORDS,
                forall|w: int| 0 <= w < bits@.len() ==> bits@[w] == 0,
            decreases BITMAP_WORDS - bits@.len(),
        {
            bits.push(0);
        }
        let r = MarkBitmap { bits, count: BITMAP_SLOTS };
        assert forall|o: int| 0 <= o < BITMAP_SLOTS implies !r@[o] by {
            lemma_zero_and_full((o % 64) as u64);
        }
        assert(r@ =~= Seq::new(BITMAP_SLOTS as nat, |o: int| false));
        r
    }

    /// Mark slot `offset` as live (ignored beyond the markable range).
    pub fn mark(&mut self, offset: usize)
        requires
            old(self).wf(),
        ensures
            final(self).wf(),
            offset < old(self)@.len() ==> final(self)@ == old(self)@.update(offset as int, true),
            offset >= old(self)@.len() ==> final(self)@ == old(self)@,
    {
        if offset >= self.count {
            return;
        }
        let word = offset / 64;
        let bit = offset % 64;
        if word < self.bits.len() {
            let old_w = self.bits[word];
            self.bits.set(word, old_w | (1u64 << (bit as u64)));
            assert forall|o: int| 0 <= o < self.count implies self@[o] == old(self)@.update(
                offset as int,
                true,
            )[o] by {
                if o / 64 == word as int {
                    lemma_set_bit(old_w, bit as u64, (o % 64) as u64);
                }
            }
            assert(self@ =~= old(self)@.update(offset as int, true));
        }
    }

    /// Unmark slot `offset` (ignored beyond the markable range).
    pub fn unmark(&mut self, offset: usize)
        requires
            old(self).wf(),
        ensures
            final(self).wf(),
            offset < old(self)@.len() ==> final(self)@ == old(self)@.update(offset as int, false),
            offset >= old(self)@.len() ==> final(self)@ == old(self)@,
    {
        if offset >= self.count {
            return;
        }
        let word = offset / 64;
        let bit = offset % 64;
        if word < self.bits.len() {
            let old_w = self.bits[word];
            self.bits.set(word, old_w & !(1u64 << (bit as u64)));
            assert forall|o: int| 0 <= o < self.count implies self@[o] == old(self)@.update(
                offset as int,
                false,
            )[o] by {
                if o / 64 == word as int {
                    lemma_clear_bit(old_w, bit as u64, (o % 64) as u64);
                }
            }
            assert(self@ =~= old(self)@.update(offset as int, false));
        }
    }

    /// Whether `offset` is marked.
    pub fn is_marked(&self, offset: usize) -> (r: bool)
        requires
            self.wf(),
        ensures
            r == (offset < self@.len() && self@[offset as int]),
    {
        if offset >= self.count {
            return false;
        }
        let word = offset / 64;
        let bit = offset % 64;
        word < self.bits.len() && (self.bits[word] & (1u64 << (bit as u64))) != 0
    }

    /// Clear all bits.
    pub fn clear(&mut self)
        requires
            old(self).wf(),
        ensures
            final(self).wf(),
            final(self)@ == Seq::new(BITMAP_SLOTS as nat, |o: int| false),
    {
        let mut i: usize = 0;
        while i < self.bits.len()
            invariant
                self.bits@.len() == BITMAP_WORDS,
                self.count == BITMAP_SLOTS,
                i <= BITMAP_WORDS,
                forall|w: int| 0 <= w < i ==> self.bits@[w] == 0,
            decreases BITMAP_WORDS - i,
        {
            self.bits.set(i, 0);
            i = i + 1;
        }
        assert forall|o: int| 0 <= o < BITMAP_SLOTS implies !self@[o] by {
            lemma_zero_and_full((o % 64) as u64);
        }
        assert(self@ =~= Seq::new(BITMAP_SLOTS as nat, |o: int| false));
    }

    /// The marked offsets, in increasing order.
    pub fn for_each_marked(&self) -> (r: Vec<usize>)
        requires
            self.wf(),
        ensures
            r@ == marked_upto(self@, self@.len() as int),
    {
        let mut out: Vec<usize> = Vec::new();
        let mut w_idx: usize = 0;
        while w_idx < self.bits.len()
            invariant
                self.wf(),
                w_idx <= BITMAP_WORDS,
                out@ == marked_upto(self@, w_idx * 64),
            decreases BITMAP_WORDS - w_idx,
        {
            let word = self.bits[w_idx];
            if word == 0 {
                proof {
                    assert forall|p: int| w_idx * 64 <= p < w_idx * 64 + 64 && p < self@.len()
                        implies !self@[p] by {
                        lemma_zero_and_full((p % 64) as u64);
                    }
                    lemma_marked_upto_skip(self@, w_idx * 64, w_idx * 64 + 64);
                }
                w_idx = w_idx + 1;
                continue;
            }
            let mut bit: usize = 0;
            while bit < 64
                invariant
                    self.wf(),
                    w_idx < BITMAP_WORDS,
                    word == self.bits@[w_idx as int],
                    bit <= 64,
                    out@ == marked_upto(self@, w_idx * 64 + bit),
                decreases 64 - bit,
            {
                let p: usize = w_idx * 64 + bit;
                proof {
                    lemma_shift_test(word, bit as u64);
                    assert(p / 64 == w_idx as int && p % 64 == bit as int);
                }
                if (word >> (bit as u64)) & 1 == 1 {
                    out.push(p);
                }
                bit = bit + 1;
            }
            w_idx = w_idx + 1;
        }
        proof {
            lemma_marked_upto_skip(self@, self@.len() as int, BITMAP_WORDS * 64);
        }
        out
    }
}

impl Default for MarkBitmap {
    fn default() -> (r: MarkBitmap)
        ensures
            r.wf(),
            r@ == Seq::new(BITMAP_SLOTS as nat, |o: int| false),
    {
        MarkBitmap::new()
    }
}

/// Positions in `[from, to)` that are not marked add nothing to the list.
pub proof fn lemma_marked_upto_skip(v: Seq<bool>, from: int, to: int)
    requires
        0 <= from <= to,
        forall|p: int| from <= p < to && p < v.len() ==> !v[p],
    ensures
        marked_upto(v, to) == marked_upto(v, from),
    decreases to - from,
{
    if from < to {
        lemma_marked_upto_skip(v, from, to - 1);
    }
}

/// Marking then testing an offset finds it marked; unmarking then testing
/// finds it unmarked; other offsets keep their state.
pub proof fn law_mark_unmark(v: Seq<bool>, o: int, q: int)
    requires
        0 <= o < v.len(),
        0 <= q < v.len(),
    ensures
        v.update(o, true)[o],
        !v.update(o, false)[o],
        q != o ==> v.update(o, true)[q] == v[q] && v.update(o, false)[q] == v[q],
{
}

} // verus!
