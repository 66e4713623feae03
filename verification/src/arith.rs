//! Saturating `i64` arithmetic, stated over mathematical integers.
use vstd::prelude::*;

verus! {

/// `x` clamped to the `i64` range: what a saturating operation returns
/// for the exact result `x`.
pub open spec fn clamp_i64(x: int) -> int {
    if x > i64::MAX {
        i64::MAX as int
    } else if x < i64::MIN {
        i64::MIN as int
    } else {
        x
    }
}

fn clamp_wide(x: i128) -> (r: i64)
    ensures
        r == clamp_i64(x as int),
{
    if x > (i64::MAX as i128) {
        i64::MAX
    } else if x < (i64::MIN as i128) {
        i64::MIN
    } else {
        x as i64
    }
}

/// `i64::saturating_add`.
pub fn sat_add(a: i64, b: i64) -> (r: i64)
    ensures
        r == clamp_i64(a + b),
{
    clamp_wide((a as i128) + (b as i128))
}

/// `i64::saturating_sub`.
pub fn sat_sub(a: i64, b: i64) -> (r: i64)
    ensures
        r == clamp_i64(a - b),
{
    clamp_wide((a as i128) - (b as i128))
}

/// `i64::saturating_mul` by a factor of at most a million.
pub fn sat_mul_small(a: i64, k: i64) -> (r: i64)
    requires
        -1_000_000 <= k <= 1_000_000,
    ensures
        r == clamp_i64(a * k),
{
    proof {
        assert(-9223372036854775808 * 1_000_000 <= a * k <= 9223372036854775808 * 1_000_000)
            by (nonlinear_arith)
            requires
                -9223372036854775808 <= a <= 9223372036854775807,
                -1_000_000 <= k <= 1_000_000,
        ;
    }
    clamp_wide((a as i128) * (k as i128))
}

} // verus!
