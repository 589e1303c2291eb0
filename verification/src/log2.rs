//! A base-2 logarithm with 16 fractional bits, approximated piecewise
//! linearly between consecutive powers of two.  This is the only
//! transcendental-looking ingredient of the smooth colouring formula, and
//! the approximation is exact integer arithmetic: for `v` with
//! `2^e <= v < 2^(e+1)` the result is `e * 65536 + (v - 2^e) * 65536 / 2^e`.

use vstd::prelude::*;

verus! {

use vstd::arithmetic::power2::{
    pow2, lemma2_to64, lemma2_to64_rest, lemma_pow2_adds, lemma_pow2_strictly_increases,
};
use vstd::arithmetic::div_mod::{lemma_div_pos_is_pos, lemma_multiply_divide_lt};

/// The exponent of the highest power of two not above `v` (0 for `v < 2`).
pub open spec fn ilog2(v: nat) -> nat
    decreases v,
{
    if v < 2 {
        0
    } else {
        1 + ilog2((v / 2) as nat)
    }
}

pub proof fn lemma_pow2_le(e1: nat, e2: nat)
    requires
        e1 <= e2,
    ensures
        pow2(e1) <= pow2(e2),
{
    if e1 < e2 {
        lemma_pow2_strictly_increases(e1, e2);
    }
}

/// The powers of two, beyond the range of `lemma2_to64`, that the engine's
/// bounds refer to.
pub proof fn lemma_pow2_values()
    ensures
        pow2(20) == 0x10_0000,
        pow2(22) == 0x40_0000,
        pow2(80) == 0x1_0000_0000_0000_0000_0000,
        pow2(102) == 0x40_0000_0000_0000_0000_0000_0000,
        pow2(110) == 0x4000_0000_0000_0000_0000_0000_0000,
{
    lemma2_to64();
    lemma2_to64_rest();
    lemma_pow2_adds(64, 16);
    lemma_pow2_adds(64, 38);
    lemma_pow2_adds(64, 46);
    assert(pow2(64) * pow2(16) == 0x1_0000_0000_0000_0000_0000) by (nonlinear_arith)
        requires
            pow2(64) == 0x1_0000_0000_0000_0000,
            pow2(16) == 0x1_0000,
    ;
    assert(pow2(64) * pow2(38) == 0x40_0000_0000_0000_0000_0000_0000) by (nonlinear_arith)
        requires
            pow2(64) == 0x1_0000_0000_0000_0000,
            pow2(38) == 0x40_0000_0000,
    ;
    assert(pow2(64) * pow2(46) == 0x4000_0000_0000_0000_0000_0000_0000) by (nonlinear_arith)
        requires
            pow2(64) == 0x1_0000_0000_0000_0000,
            pow2(46) == 0x4000_0000_0000,
    ;
}

/// `ilog2` never exceeds an exponent whose power bounds `v` above.
pub proof fn lemma_ilog2_le(v: nat, e: nat)
    requires
        1 <= v,
        v < pow2(e + 1),
    ensures
        ilog2(v) <= e,
{
    lemma_ilog2_bounds(v);
    if ilog2(v) > e {
        lemma_pow2_le(e + 1, ilog2(v));
    }
}

/// `ilog2` is at least any exponent whose power bounds `v` below.
pub proof fn lemma_ilog2_ge(v: nat, e: nat)
    requires
        pow2(e) <= v,
    ensures
        ilog2(v) >= e,
{
    vstd::arithmetic::power2::lemma_pow2_pos(e);
    lemma_ilog2_bounds(v);
    if ilog2(v) < e {
        lemma_pow2_le(ilog2(v) + 1, e);
    }
}

/// `ilog2` is characterised by `pow2(ilog2(v)) <= v < pow2(ilog2(v) + 1)`.
pub proof fn lemma_ilog2_bounds(v: nat)
    requires
        v >= 1,
    ensures
        pow2(ilog2(v)) <= v < pow2(ilog2(v) + 1),
    decreases v,
{
    lemma2_to64();
    if v < 2 {
    } else {
        let h = (v / 2) as nat;
        lemma_ilog2_bounds(h);
        let i = ilog2(h);
        lemma_pow2_adds(1, i);
        lemma_pow2_adds(1, i + 1);
        assert(2 * h <= v < 2 * h + 2);
    }
}

pub proof fn lemma_ilog2_unique(v: nat, e: nat)
    requires
        v >= 1,
        pow2(e) <= v,
        v < pow2(e + 1),
    ensures
        ilog2(v) == e,
{
    lemma_ilog2_bounds(v);
    let i = ilog2(v);
    if i < e {
        lemma_pow2_le(i + 1, e);
    } else if e < i {
        lemma_pow2_le(e + 1, i);
    }
}

/// The piecewise-linear base-2 logarithm in Q16 fixed point.
pub open spec fn log2_q16_s(v: nat) -> int {
    let e = ilog2(v);
    e * 65536 + (v - pow2(e)) * 65536 / (pow2(e) as int)
}

/// The approximation stays within the unit Q16 interval above `ilog2`.
pub proof fn lemma_log2_q16_bounds(v: nat)
    requires
        v >= 1,
    ensures
        ilog2(v) * 65536 <= log2_q16_s(v) < (ilog2(v) + 1) * 65536,
{
    lemma_ilog2_bounds(v);
    let e = ilog2(v);
    let p = pow2(e) as int;
    vstd::arithmetic::power2::lemma_pow2_pos(e);
    assert((v - p) * 65536 >= 0) by (nonlinear_arith)
        requires
            v - p >= 0,
    ;
    lemma_div_pos_is_pos((v - p) * 65536, p);
    lemma_pow2_adds(1, e);
    lemma2_to64();
    assert((v - p) * 65536 < p * 65536) by (nonlinear_arith)
        requires
            0 <= v - p < p,
    ;
    lemma_multiply_divide_lt((v - p) * 65536, p, 65536);
}

/// Executable Q16 logarithm; see `log2_q16_s`.
pub fn log2_q16(v: u128) -> (r: u64)
    requires
        1 <= v < 0x4000_0000_0000_0000_0000_0000_0000,
    ensures
        r as int == log2_q16_s(v as nat),
        ilog2(v as nat) * 65536 <= (r as int) < (ilog2(v as nat) + 1) * 65536,
{
    proof {
        lemma2_to64();
    }
    let mut e: u32 = 0;
    let mut p: u128 = 1;
    while p <= v / 2
        invariant
            1 <= v < 0x4000_0000_0000_0000_0000_0000_0000,
            p as nat == pow2(e as nat),
            1 <= p <= v,
            e <= 127,
        decreases v - p,
    {
        proof {
            lemma_pow2_adds(1, e as nat);
            lemma2_to64();
            if e >= 110 {
                lemma_pow2_values();
                lemma_pow2_le(110, e as nat);
                assert(false);
            }
        }
        p = 2 * p;
        e = e + 1;
    }
    proof {
        assert(v < 2 * p);
        lemma_pow2_adds(1, e as nat);
        lemma2_to64();
        lemma_ilog2_unique(v as nat, e as nat);
        lemma_log2_q16_bounds(v as nat);
        if e >= 110 {
            lemma_pow2_values();
            lemma_pow2_le(110, e as nat);
            assert(false);
        }
        assert((v - p) * 65536 <= 0x4000_0000_0000_0000_0000_0000_0000 * 65536) by (nonlinear_arith)
            requires
                0 <= (v as int) - (p as int) <= 0x4000_0000_0000_0000_0000_0000_0000,
        ;
        assert(((v as int) - (p as int)) * 65536 < (p as int) * 65536) by (nonlinear_arith)
            requires
                0 <= (v as int) - (p as int) < p as int,
        ;
        lemma_multiply_divide_lt(((v as int) - (p as int)) * 65536, p as int, 65536);
        lemma_div_pos_is_pos(((v as int) - (p as int)) * 65536, p as int);
    }
    let frac: u128 = (v - p) * 65536 / p;
    (e as u64) * 65536 + (frac as u64)
}

} // verus!
