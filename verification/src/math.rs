//! Scalar fixed-point helpers shared by every stage of the kernel: range
//! clamping, sign-preserving scaled division, and integer square roots.

use vstd::prelude::*;

verus! {

/// Fixed-point subunits per world unit: positions, velocities and radii are
/// signed integers counting milliunits.
pub const MILLI: i64 = 1000;

/// Every stored coordinate and velocity component is kept inside
/// [-SCALAR_LIMIT, SCALAR_LIMIT]; mutations clamp back into this range.
pub const SCALAR_LIMIT: i64 = 1_000_000_000_000;

/// The value a scalar update settles on: the raw result where it is
/// representable, else the nearest end of the representable range.
pub open spec fn clamp_spec(x: int) -> int {
    if x < -(SCALAR_LIMIT as int) {
        -(SCALAR_LIMIT as int)
    } else if x > SCALAR_LIMIT as int {
        SCALAR_LIMIT as int
    } else {
        x
    }
}

/// Clamps a scalar into the representable range.
pub fn clamp_scalar(x: i64) -> (r: i64)
    ensures
        r as int == clamp_spec(x as int),
{
    if x < -SCALAR_LIMIT {
        -SCALAR_LIMIT
    } else if x > SCALAR_LIMIT {
        SCALAR_LIMIT
    } else {
        x
    }
}

/// Clamps a wide intermediate into the representable scalar range.
pub fn clamp_wide(x: i128) -> (r: i64)
    ensures
        r as int == clamp_spec(x as int),
{
    if x < -(SCALAR_LIMIT as i128) {
        -SCALAR_LIMIT
    } else if x > SCALAR_LIMIT as i128 {
        SCALAR_LIMIT
    } else {
        x as i64
    }
}

/// Division that keeps the sign of the dividend and divides magnitudes:
/// the rounding-toward-zero division used throughout the kernel.
pub open spec fn sdiv_spec(a: int, b: int) -> int
    recommends
        b > 0,
{
    if a >= 0 {
        a / b
    } else {
        -((-a) / b)
    }
}

/// Rounding-toward-zero division on wide intermediates.
pub fn sdiv(a: i128, b: i128) -> (r: i128)
    requires
        b > 0,
        a > i128::MIN,
    ensures
        r as int == sdiv_spec(a as int, b as int),
        a >= 0 ==> 0 <= r <= a,
        a < 0 ==> a <= r <= 0,
{
    if a >= 0 {
        let q = a / b;
        proof {
            vstd::arithmetic::div_mod::lemma_div_pos_is_pos(a as int, b as int);
            vstd::arithmetic::div_mod::lemma_div_nonincreasing(a as int, b as int);
        }
        q
    } else {
        let m = -a;
        let q = m / b;
        proof {
            vstd::arithmetic::div_mod::lemma_div_pos_is_pos(m as int, b as int);
            vstd::arithmetic::div_mod::lemma_div_nonincreasing(m as int, b as int);
        }
        -q
    }
}

/// `r` is the integer square root of `n` rounded down.
pub open spec fn is_sqrt_floor(n: int, r: int) -> bool {
    0 <= r && r * r <= n && n < (r + 1) * (r + 1)
}

/// The integer square root of `n` rounded down (for nonnegative `n`).
pub open spec fn sqrt_floor(n: int) -> int {
    choose|r: int| is_sqrt_floor(n, r)
}

proof fn sqrt_floor_witness(n: int) -> (r: int)
    requires
        n >= 0,
    ensures
        is_sqrt_floor(n, r),
    decreases n,
{
    if n == 0 {
        assert(is_sqrt_floor(0, 0)) by (nonlinear_arith);
        0
    } else {
        let p = sqrt_floor_witness(n - 1);
        if (p + 1) * (p + 1) <= n {
            let r = p + 1;
            assert(n < (r + 1) * (r + 1)) by (nonlinear_arith)
                requires
                    r == p + 1,
                    p >= 0,
                    n - 1 < (p + 1) * (p + 1),
            ;
            assert(is_sqrt_floor(n, r));
            r
        } else {
            assert(is_sqrt_floor(n, p));
            p
        }
    }
}

/// Every nonnegative integer has a rounded-down square root.
pub proof fn lemma_sqrt_floor(n: int)
    requires
        n >= 0,
    ensures
        is_sqrt_floor(n, sqrt_floor(n)),
{
    let w = sqrt_floor_witness(n);
    assert(is_sqrt_floor(n, w));
}

/// The rounded-down square root is unique.
pub proof fn lemma_sqrt_floor_unique(n: int, r: int)
    requires
        n >= 0,
        is_sqrt_floor(n, r),
    ensures
        r == sqrt_floor(n),
{
    lemma_sqrt_floor(n);
    let s = sqrt_floor(n);
    if r < s {
        assert((r + 1) * (r + 1) <= s * s) by (nonlinear_arith)
            requires
                0 <= r + 1 <= s,
        ;
    }
    if s < r {
        assert((s + 1) * (s + 1) <= r * r) by (nonlinear_arith)
            requires
                0 <= s + 1 <= r,
        ;
    }
}

/// Computes the integer square root by bisection.
pub fn isqrt(n: u128) -> (r: i64)
    requires
        n <= 8_000_000_000_000_000_000_000_000,
    ensures
        r as int == sqrt_floor(n as int),
        is_sqrt_floor(n as int, r as int),
        0 <= r <= 3_000_000_000_000,
{
    let mut lo: u128 = 0;
    let mut hi: u128 = 3_000_000_000_001;
    assert(n < hi as int * hi as int);
    while lo + 1 < hi
        invariant
            lo < hi <= 3_000_000_000_001,
            lo as int * lo as int <= n as int,
            (n as int) < hi as int * hi as int,
        decreases hi - lo,
    {
        let mid: u128 = lo + (hi - lo) / 2;
        assert(mid as int * mid as int <= 3_000_000_000_001 * 3_000_000_000_001) by (nonlinear_arith)
            requires
                0 <= mid as int <= 3_000_000_000_001,
        ;
        if mid * mid <= n {
            lo = mid;
        } else {
            hi = mid;
        }
    }
    proof {
        lemma_sqrt_floor_unique(n as int, lo as int);
    }
    lo as i64
}

} // verus!
