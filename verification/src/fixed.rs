//! Signed fixed-point arithmetic with 32 fractional bits, held in `i64`.
//!
//! A value `v` stands for the real number `v / 2^32`.  Products and squared
//! norms are formed in 128-bit arithmetic; rescaling quotients are truncated
//! toward zero, computed on magnitudes so that every machine division is
//! unsigned.

use vstd::prelude::*;

verus! {

use vstd::math::abs;
use vstd::arithmetic::div_mod::{
    lemma_div_is_ordered, lemma_div_multiples_vanish, lemma_div_pos_is_pos,
};
use vstd::arithmetic::mul::{lemma_mul_inequality, lemma_mul_is_commutative, lemma_mul_upper_bound};

/// Number of fixed-point units in 1.0: 2^32.
pub const SCALE: i64 = 0x1_0000_0000;

/// Largest magnitude (2^46 units, i.e. 16384.0) accepted by `mul_fp`; it
/// keeps the rescaled product within `i64`.
pub const MUL_ARG_BOUND: i64 = 0x4000_0000_0000;

/// One half, in fixed-point units.
pub const HALF_SCALE: i64 = 0x8000_0000;

/// One quarter, in fixed-point units.
pub const QUARTER_SCALE: i64 = 0x4000_0000;

/// The fixed-point product: `a * b / SCALE`, with the quotient of the
/// magnitudes rounded down and the sign of the exact product reapplied
/// (truncation toward zero).
pub open spec fn fp_mul(a: int, b: int) -> int {
    let m = (abs(a) * abs(b)) as int / (SCALE as int);
    if (a >= 0) == (b >= 0) {
        m
    } else {
        -m
    }
}

/// The fixed-point quotient `a / (b / SCALE)`, truncated toward zero.
/// `b` is an unscaled positive integer, so this divides the raw value `a`
/// by `b` while keeping the fixed-point format.
pub open spec fn fp_div(a: int, b: int) -> int {
    let q = (abs(a) * (SCALE as int)) as int / b;
    if a >= 0 {
        q
    } else {
        -q
    }
}

/// The squared magnitude `a * a + b * b` of a coordinate pair, at doubled
/// scale (2^64 units per 1.0).
pub open spec fn norm2s(a: int, b: int) -> int {
    a * a + b * b
}

/// The integer square root, rounded down.
pub open spec fn isqrt_s(n: int) -> int
    decreases n,
{
    if n <= 0 {
        0
    } else {
        let r = isqrt_s(n - 1);
        if (r + 1) * (r + 1) <= n {
            r + 1
        } else {
            r
        }
    }
}

pub proof fn lemma_isqrt_bounds(n: int)
    requires
        n >= 0,
    ensures
        0 <= isqrt_s(n),
        isqrt_s(n) * isqrt_s(n) <= n,
        n < (isqrt_s(n) + 1) * (isqrt_s(n) + 1),
    decreases n,
{
    if n == 0 {
        assert(isqrt_s(0) == 0);
    } else {
        lemma_isqrt_bounds(n - 1);
        let r = isqrt_s(n - 1);
        if (r + 1) * (r + 1) <= n {
            assert(n - 1 < (r + 1) * (r + 1));
            assert(n == (r + 1) * (r + 1));
            assert((r + 1) * (r + 1) < (r + 2) * (r + 2)) by (nonlinear_arith)
                requires
                    r >= 0,
            ;
        }
    }
}

pub proof fn lemma_isqrt_unique(n: int, r: int)
    requires
        n >= 0,
        r >= 0,
        r * r <= n,
        n < (r + 1) * (r + 1),
    ensures
        r == isqrt_s(n),
{
    lemma_isqrt_bounds(n);
    let s = isqrt_s(n);
    if r < s {
        assert((r + 1) * (r + 1) <= s * s) by (nonlinear_arith)
            requires
                0 <= r + 1 <= s,
        ;
    } else if s < r {
        assert((s + 1) * (s + 1) <= r * r) by (nonlinear_arith)
            requires
                0 <= s + 1 <= r,
        ;
    }
}

/// The magnitude of `a`, as an unsigned machine word.
pub fn abs_i64(a: i64) -> (r: u64)
    ensures
        r as int == abs(a as int),
{
    if a >= 0 {
        a as u64
    } else {
        let wide: i128 = -(a as i128);
        wide as u64
    }
}

/// Fixed-point multiplication; see `fp_mul`.
pub fn mul_fp(a: i64, b: i64) -> (r: i64)
    requires
        abs(a as int) <= MUL_ARG_BOUND as int,
        abs(b as int) <= MUL_ARG_BOUND as int,
    ensures
        r as int == fp_mul(a as int, b as int),
{
    let ua = abs_i64(a);
    let ub = abs_i64(b);
    proof {
        lemma_mul_upper_bound(ua as int, MUL_ARG_BOUND as int, ub as int, MUL_ARG_BOUND as int);
        assert((MUL_ARG_BOUND as int) * (MUL_ARG_BOUND as int) == 0x1000_0000_0000_0000_0000_0000);
    }
    let p: u128 = (ua as u128) * (ub as u128) / (SCALE as u128);
    proof {
        lemma_div_is_ordered((ua as int) * (ub as int), 0x1000_0000_0000_0000_0000_0000, SCALE as int);
        assert((SCALE as int) * 0x1000_0000_0000_0000 == 0x1000_0000_0000_0000_0000_0000);
        lemma_div_multiples_vanish(0x1000_0000_0000_0000, SCALE as int);
        lemma_div_pos_is_pos((ua as int) * (ub as int), SCALE as int);
        assert(p as int == (abs(a as int) * abs(b as int)) as int / (SCALE as int));
    }
    if (a < 0) != (b < 0) {
        -(p as i64)
    } else {
        p as i64
    }
}

/// A value whose square is bounded by a square is bounded by the root.
pub proof fn lemma_sq_bound(a: int, m: int)
    requires
        m >= 0,
        a * a <= m * m,
    ensures
        -m <= a <= m,
{
    assert(-m <= a <= m) by (nonlinear_arith)
        requires
            m >= 0,
            a * a <= m * m,
    ;
}

/// A normalisation quotient never exceeds one unit: dividing a value by a
/// bound on its magnitude keeps the fixed-point result within `SCALE`.
pub proof fn lemma_fp_div_bound(a: int, b: int)
    requires
        1 <= b,
        abs(a) <= b,
    ensures
        abs(fp_div(a, b)) <= SCALE as int,
{
    lemma_mul_inequality(abs(a) as int, b, SCALE as int);
    lemma_div_is_ordered((abs(a) * (SCALE as int)) as int, b * (SCALE as int), b);
    lemma_mul_is_commutative(b, SCALE as int);
    lemma_div_multiples_vanish(SCALE as int, b);
    lemma_div_pos_is_pos((abs(a) * (SCALE as int)) as int, b);
}

/// The magnitude of a fixed-point product is bounded by the product of the
/// magnitude bounds of its factors, rescaled.
pub proof fn lemma_fp_mul_bound(a: int, b: int, ba: int, bb: int)
    requires
        abs(a) <= ba,
        abs(b) <= bb,
    ensures
        abs(fp_mul(a, b)) <= ba * bb / (SCALE as int),
{
    lemma_mul_upper_bound(abs(a) as int, ba, abs(b) as int, bb);
    lemma_div_is_ordered((abs(a) * abs(b)) as int, ba * bb, SCALE as int);
    lemma_div_pos_is_pos((abs(a) * abs(b)) as int, SCALE as int);
}

/// The squared magnitude of a coordinate pair, at doubled scale.
pub fn norm2(re: i64, im: i64) -> (n: i128)
    requires
        abs(re as int) <= 0x8_0000_0000_0000,
        abs(im as int) <= 0x8_0000_0000_0000,
    ensures
        n as int == norm2s(re as int, im as int),
        0 <= n,
{
    proof {
        assert((re as int) * (re as int) <= 0x40_0000_0000_0000_0000_0000_0000
            && (re as int) * (re as int) >= 0) by (nonlinear_arith)
            requires
                abs(re as int) <= 0x8_0000_0000_0000,
        ;
        assert((im as int) * (im as int) <= 0x40_0000_0000_0000_0000_0000_0000
            && (im as int) * (im as int) >= 0) by (nonlinear_arith)
            requires
                abs(im as int) <= 0x8_0000_0000_0000,
        ;
    }
    let r = re as i128;
    let i = im as i128;
    r * r + i * i
}

/// Fixed-point division of `a` by the unscaled positive integer `b`;
/// see `fp_div`.  Callers keep `abs(a) <= b`, so the result never exceeds
/// one unit in magnitude.
pub fn div_fp(a: i64, b: u64) -> (r: i64)
    requires
        1 <= b,
        abs(a as int) <= b as int,
    ensures
        r as int == fp_div(a as int, b as int),
        abs(r as int) <= SCALE as int,
{
    let ua = abs_i64(a);
    proof {
        lemma_mul_upper_bound(ua as int, b as int, SCALE as int, SCALE as int);
        assert((ua as int) * (SCALE as int) <= (b as int) * (SCALE as int)) by (nonlinear_arith)
            requires
                0 <= ua as int <= b as int,
                0 < SCALE as int,
        ;
    }
    let q: u128 = (ua as u128) * (SCALE as u128) / (b as u128);
    proof {
        lemma_div_is_ordered((ua as int) * (SCALE as int), (b as int) * (SCALE as int), b as int);
        lemma_mul_is_commutative(b as int, SCALE as int);
        lemma_div_multiples_vanish(SCALE as int, b as int);
        lemma_div_pos_is_pos((ua as int) * (SCALE as int), b as int);
    }
    if a < 0 {
        -(q as i64)
    } else {
        q as i64
    }
}

/// The integer square root, rounded down, by bisection.
pub fn isqrt(n: u128) -> (r: u64)
    requires
        n < 0x4000_0000_0000_0000_0000_0000_0000_0000,
    ensures
        r as int == isqrt_s(n as int),
        (r as int) * (r as int) <= n as int,
        (n as int) < ((r as int) + 1) * ((r as int) + 1),
{
    let mut lo: u64 = 0;
    let mut hi: u64 = 0x8000_0000_0000_0000;
    proof {
        assert((hi as int) * (hi as int) == 0x4000_0000_0000_0000_0000_0000_0000_0000);
    }
    while lo + 1 < hi
        invariant
            lo < hi,
            hi <= 0x8000_0000_0000_0000,
            (lo as int) * (lo as int) <= n as int,
            (n as int) < (hi as int) * (hi as int),
        decreases hi - lo,
    {
        let mid = lo + (hi - lo) / 2;
        proof {
            assert((mid as int) * (mid as int) <= 0x4000_0000_0000_0000_0000_0000_0000_0000)
                by (nonlinear_arith)
                requires
                    0 <= mid as int <= 0x8000_0000_0000_0000,
            ;
        }
        if (mid as u128) * (mid as u128) <= n {
            lo = mid;
        } else {
            hi = mid;
        }
    }
    proof {
        lemma_isqrt_unique(n as int, lo as int);
    }
    lo
}

} // verus!
