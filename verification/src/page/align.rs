//! Page alignment helpers.
use crate::region::REGION_SIZE;
use vstd::prelude::*;

verus! {

/// Bytes per page.
pub const PAGE_SIZE: usize = 4096;

/// Pages per region.
pub const REGION_PAGE_COUNT: usize = REGION_SIZE / PAGE_SIZE;

/// `ceil(x / d)` for positive `d`.
pub open spec fn div_ceil_spec(x: int, d: int) -> int {
    (x + d - 1) / d
}

/// Round `addr` up to the next page boundary.
pub fn page_round_up(addr: usize) -> (r: usize)
    requires
        div_ceil_spec(addr as int, PAGE_SIZE as int) * PAGE_SIZE <= usize::MAX,
    ensures
        r == div_ceil_spec(addr as int, PAGE_SIZE as int) * PAGE_SIZE,
{
    div_ceil(addr, PAGE_SIZE) * PAGE_SIZE
}

/// `ceil(x / d)`, computed without overflow.
pub(crate) fn div_ceil(x: usize, d: usize) -> (r: usize)
    requires
        d > 0,
    ensures
        r == div_ceil_spec(x as int, d as int),
{
    let q = x / d;
    let rem = x % d;
    proof {
        assert(x == d * q + rem) by (nonlinear_arith)
            requires
                d > 0,
                q == x / d,
                rem == x % d,
        ;
        if rem > 0 {
            assert((x as int + d as int - 1) / (d as int) == q + 1) by (nonlinear_arith)
                requires
                    d > 0,
                    x == d * q + rem,
                    0 < rem < d,
            ;
        } else {
            assert((x as int + d as int - 1) / (d as int) == q) by (nonlinear_arith)
                requires
                    d > 0,
                    x == d * q,
            ;
        }
    }
    if rem > 0 {
        assert(q * d <= x) by (nonlinear_arith)
            requires
                x == d * q + rem,
                rem >= 0,
                d > 0,
        ;
        assert(rem < d);
        assert(q * 2 <= x) by (nonlinear_arith)
            requires
                q * d <= x,
                d >= 2,
                q >= 0,
        ;
        q + 1
    } else {
        q
    }
}

/// Round `addr` down to the previous page boundary.
pub fn page_round_down(addr: usize) -> (r: usize)
    ensures
        r == addr / PAGE_SIZE * PAGE_SIZE,
{
    addr / PAGE_SIZE * PAGE_SIZE
}

/// Whether `addr` is page-aligned.
pub fn is_page_aligned(addr: usize) -> (r: bool)
    ensures
        r == (addr % PAGE_SIZE == 0),
{
    addr % PAGE_SIZE == 0
}

/// Rounding down gives the greatest page boundary not above `a`; rounding
/// up gives the least page boundary not below `a`; an address is aligned
/// exactly when rounding leaves it unchanged.
pub proof fn law_rounding(a: int)
    requires
        0 <= a,
    ensures
        (a / 4096 * 4096) % 4096 == 0,
        a / 4096 * 4096 <= a < a / 4096 * 4096 + 4096,
        (div_ceil_spec(a, 4096) * 4096) % 4096 == 0,
        a <= div_ceil_spec(a, 4096) * 4096 < a + 4096,
        (a % 4096 == 0) == (a / 4096 * 4096 == a),
        (a % 4096 == 0) == (div_ceil_spec(a, 4096) * 4096 == a),
{
    assert((a / 4096 * 4096) % 4096 == 0) by (nonlinear_arith);
    assert(a / 4096 * 4096 <= a < a / 4096 * 4096 + 4096) by (nonlinear_arith)
        requires
            0 <= a,
    ;
    assert((div_ceil_spec(a, 4096) * 4096) % 4096 == 0) by (nonlinear_arith);
    assert(a <= (a + 4095) / 4096 * 4096 < a + 4096) by (nonlinear_arith)
        requires
            0 <= a,
    ;
    assert((a % 4096 == 0) == (a / 4096 * 4096 == a)) by (nonlinear_arith)
        requires
            0 <= a,
    ;
    assert((a % 4096 == 0) == ((a + 4095) / 4096 * 4096 == a)) by (nonlinear_arith)
        requires
            0 <= a,
    ;
}

} // verus!
