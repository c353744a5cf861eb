//! Fixed-point plane geometry: vectors, exact division and integer
//! square root, the deterministic substitute for the floating-point
//! math of the presentation layer.

use vstd::prelude::*;

verus! {

/// Fixed-point units in one world unit, for positions and velocities
/// alike. Chosen so that averaging up to four direction vectors stays
/// exact: it is divisible by one, two, three and four.
pub const FIXED_POINT_SCALE: i64 = 12;

/// A plane vector in fixed-point units.
#[derive(Clone, Copy, PartialEq, Eq, Structural, Debug)]
pub struct Vector2 {
    pub x: i64,
    pub y: i64,
}

impl Vector2 {
    /// The squared Euclidean length, exact in integers.
    pub open spec fn norm_sq(self) -> int {
        self.x * self.x + self.y * self.y
    }
}

/// Quotient of `n` by `d` rounded toward zero, as Rust's own signed
/// division rounds.
pub open spec fn spec_div_toward_zero(n: int, d: int) -> int
    recommends
        d > 0,
{
    if n >= 0 {
        n / d
    } else {
        -((-n) / d)
    }
}

/// Divides rounding toward zero. Bounds keep the negation of `i64::MIN`
/// out of reach.
pub fn div_toward_zero(n: i64, d: u64) -> (r: i64)
    requires
        d > 0,
        -0x7fff_ffff_ffff_ffff <= n,
    ensures
        r == spec_div_toward_zero(n as int, d as int),
        n >= 0 ==> 0 <= r <= n,
        n < 0 ==> n <= r <= 0,
{
    if n >= 0 {
        let q: u64 = (n as u64) / d;
        proof {
            assert(n as int / d as int <= n as int) by (nonlinear_arith)
                requires n >= 0 && d >= 1;
        }
        q as i64
    } else {
        let m: u64 = (-n) as u64;
        let q: u64 = m / d;
        proof {
            assert(m as int / d as int <= m as int) by (nonlinear_arith)
                requires m >= 0 && d >= 1;
        }
        -(q as i64)
    }
}

/// The integer square root: the greatest `r` with `r * r <= n`.
pub open spec fn is_isqrt(n: int, r: int) -> bool {
    &&& r >= 0
    &&& r * r <= n
    &&& (r + 1) * (r + 1) > n
}

/// The integer square root as a value, for use in contracts.
pub open spec fn spec_isqrt(n: int) -> int {
    choose|r: int| is_isqrt(n, r)
}

/// No two integers satisfy `is_isqrt` for the same radicand.
pub proof fn lemma_isqrt_unique(n: int, r1: int, r2: int)
    requires
        is_isqrt(n, r1),
        is_isqrt(n, r2),
    ensures
        r1 == r2,
{
    assert(r1 == r2) by (nonlinear_arith)
        requires
            r1 >= 0 && r1 * r1 <= n && (r1 + 1) * (r1 + 1) > n,
            r2 >= 0 && r2 * r2 <= n && (r2 + 1) * (r2 + 1) > n;
}

/// Computes the integer square root by bisection.
pub fn isqrt(n: u64) -> (r: u64)
    ensures
        is_isqrt(n as int, r as int),
        r == spec_isqrt(n as int),
        n >= 1 ==> r >= 1,
{
    let r = isqrt_inner(n);
    proof {
        assert(is_isqrt(n as int, spec_isqrt(n as int))) by {
            assert(is_isqrt(n as int, r as int));
        }
        lemma_isqrt_unique(n as int, r as int, spec_isqrt(n as int));
        if n >= 1 && r == 0 {
            assert((0 + 1) * (0 + 1) > n);
            assert(false);
        }
    }
    r
}

/// Computes the integer square root of a wide operand, for divisors
/// scaled beyond the reach of `u64`.
pub fn isqrt_u128(n: u128) -> (r: u128)
    ensures
        is_isqrt(n as int, r as int),
        r == spec_isqrt(n as int),
{
    let r = isqrt_u128_inner(n);
    proof {
        assert(is_isqrt(n as int, spec_isqrt(n as int))) by {
            assert(is_isqrt(n as int, r as int));
        }
        lemma_isqrt_unique(n as int, r as int, spec_isqrt(n as int));
    }
    r
}

fn isqrt_u128_inner(n: u128) -> (r: u128)
    ensures
        is_isqrt(n as int, r as int),
{
    if n == 0 {
        return 0;
    }
    let mut lo: u128 = 0;
    let mut hi: u128 = 0x1_0000_0000_0000_0000;
    proof {
        assert((0x1_0000_0000_0000_0000 as int) * (0x1_0000_0000_0000_0000 as int) > n as int);
    }
    while lo + 1 < hi
        invariant
            lo < hi <= 0x1_0000_0000_0000_0000,
            lo * lo <= n,
            (hi as int) * (hi as int) > n,
        decreases hi - lo,
    {
        let mid: u128 = lo + (hi - lo) / 2;
        proof {
            assert(mid < hi);
            assert(mid as int * mid as int <= 0xffff_ffff_ffff_ffff_ffff_ffff_ffff_ffff) by (nonlinear_arith)
                requires mid <= 0xffff_ffff_ffff_ffff;
        }
        if mid * mid <= n {
            lo = mid;
        } else {
            hi = mid;
        }
    }
    lo
}

fn isqrt_inner(n: u64) -> (r: u64)
    ensures
        is_isqrt(n as int, r as int),
{
    if n == 0 {
        return 0;
    }
    let mut lo: u64 = 0;
    let mut hi: u64 = 0x1_0000_0000;
    proof {
        assert((0x1_0000_0000 as int) * (0x1_0000_0000 as int) > n as int);
    }
    while lo + 1 < hi
        invariant
            lo < hi <= 0x1_0000_0000,
            lo * lo <= n,
            (hi as int) * (hi as int) > n,
        decreases hi - lo,
    {
        let mid: u64 = lo + (hi - lo) / 2;
        proof {
            assert(mid < hi);
            assert(mid as int * mid as int <= 0xffff_ffff_0000_0000 + 1) by (nonlinear_arith)
                requires mid <= 0xffff_ffff;
        }
        if mid <= 0xffff_ffff && mid * mid <= n {
            lo = mid;
        } else {
            proof {
                if mid > 0xffff_ffff {
                    assert(mid as int * mid as int > n as int) by (nonlinear_arith)
                        requires mid >= 0x1_0000_0000 && n <= 0xffff_ffff_ffff_ffff;
                }
            }
            hi = mid;
        }
    }
    lo
}

} // verus!
