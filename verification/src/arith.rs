//! Integer conversions shared by the statistics modules.
use vstd::prelude::*;

verus! {

/// The value of `x as i64`: two's-complement reinterpretation of the bits.
pub open spec fn as_i64(x: u64) -> int {
    if x <= i64::MAX {
        x as int
    } else {
        x - 0x1_0000_0000_0000_0000
    }
}

/// Reinterpret the bits of `x` as a signed 64-bit integer (what `x as i64`
/// does).
pub(crate) fn wrap_i64(x: u64) -> (r: i64)
    ensures
        r == as_i64(x),
{
    if x <= 0x7fff_ffff_ffff_ffff {
        x as i64
    } else {
        let low = (x - 0x8000_0000_0000_0000) as i64;
        low + i64::MIN
    }
}

/// `a as i64 - b as i64`, defined when the difference fits in an `i64`.
pub open spec fn signed_diff(a: u64, b: u64) -> int {
    as_i64(a) - as_i64(b)
}

/// Whether `a as i64 - b as i64` stays within `i64`.
pub open spec fn signed_diff_fits(a: u64, b: u64) -> bool {
    i64::MIN <= signed_diff(a, b) <= i64::MAX
}

} // verus!
