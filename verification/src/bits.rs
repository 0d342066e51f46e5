//! Single-bit facts about 64-bit words, shared by the bitmaps.
use vstd::prelude::*;

verus! {

/// Whether bit `b` of `w` is set.
pub open spec fn bit_set(w: u64, b: u64) -> bool {
    w & (1u64 << b) != 0
}

/// Setting bit `b` sets it and leaves the other bits alone.
pub proof fn lemma_set_bit(w: u64, b: u64, c: u64)
    requires
        b < 64,
        c < 64,
    ensures
        bit_set(w | (1u64 << b), c) == (b == c || bit_set(w, c)),
{
    assert((w | (1u64 << b)) & (1u64 << c) != 0 <==> (b == c || w & (1u64 << c) != 0))
        by (bit_vector)
        requires
            b < 64,
            c < 64,
    ;
}

/// Clearing bit `b` clears it and leaves the other bits alone.
pub proof fn lemma_clear_bit(w: u64, b: u64, c: u64)
    requires
        b < 64,
        c < 64,
    ensures
        bit_set(w & !(1u64 << b), c) == (b != c && bit_set(w, c)),
{
    assert((w & !(1u64 << b)) & (1u64 << c) != 0 <==> (b != c && w & (1u64 << c) != 0))
        by (bit_vector)
        requires
            b < 64,
            c < 64,
    ;
}

/// No bit of zero is set, and every bit of `u64::MAX` is.
pub proof fn lemma_zero_and_full(c: u64)
    requires
        c < 64,
    ensures
        !bit_set(0, c),
        bit_set(u64::MAX, c),
{
    assert(0u64 & (1u64 << c) == 0 && u64::MAX & (1u64 << c) != 0) by (bit_vector)
        requires
            c < 64,
    ;
}

/// Testing by shift-and-mask agrees with testing by mask.
pub proof fn lemma_shift_test(w: u64, c: u64)
    requires
        c < 64,
    ensures
        ((w >> c) & 1 == 1) == bit_set(w, c),
{
    assert(((w >> c) & 1 == 1) <==> (w & (1u64 << c) != 0)) by (bit_vector)
        requires
            c < 64,
    ;
}

} // verus!
