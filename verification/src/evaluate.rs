//! The escape-time evaluator: decides, for a point `c` of the complex
//! plane, whether the iteration `z <- z * z + c` stays bounded within the
//! given budget, and if not, after how many steps it escapes.
//!
//! Points inside the period-2 bulb, or passing an approximate main-cardioid
//! test, are recognised without iterating.  Escaping points carry a
//! "shade": a fractional refinement of the step count derived from the
//! magnitude at escape, used for smooth colouring.

use vstd::prelude::*;

verus! {

use vstd::math::abs;
use vstd::arithmetic::div_mod::{
    lemma_div_is_ordered, lemma_div_multiples_vanish, lemma_div_pos_is_pos,
    lemma_multiply_divide_lt,
};
use crate::fixed::{
    fp_div, fp_mul, norm2s, isqrt_s, div_fp, mul_fp, norm2, isqrt,
    lemma_fp_mul_bound, lemma_sq_bound,
    SCALE, HALF_SCALE, QUARTER_SCALE,
};
use crate::complex::{Complex, step_re, step_im, COORD_BOUND};
use crate::log2::{
    ilog2, log2_q16_s, log2_q16, lemma_log2_q16_bounds, lemma_ilog2_le, lemma_ilog2_ge,
    lemma_pow2_values,
};

/// Squared escape radius, at doubled fixed-point scale: 65536.0, i.e. the
/// iterate has escaped once its magnitude exceeds 256.
pub const ESCAPE_THRESHOLD: i128 = 0x1_0000_0000_0000_0000_0000;

/// Squared radius of the period-2 bulb, at doubled fixed-point scale:
/// 0.0625, the square of 0.25.
pub const BULB_THRESHOLD: i128 = 0x1000_0000_0000_0000;

/// The divergence verdict for one point: the number of completed steps
/// before the escape was detected, and the Q16 fractional shade that
/// smooths the integer count.
#[derive(Clone, Copy, Debug, PartialEq, Eq, Structural)]
pub struct EscapeValue {
    pub steps: u32,
    pub shade: u32,
}

impl EscapeValue {
    /// The continuous smoothed escape count as a single Q16 value: the
    /// integer step count with the fractional shade below it.
    pub fn smoothed_q16(&self) -> (v: u64)
        ensures
            v as int == (self.steps as int) * 65536 + self.shade as int,
    {
        (self.steps as u64) * 65536 + (self.shade as u64)
    }
}

/// The fractional shade for an escape magnitude `n2` (squared, doubled
/// scale): in real terms `1 - 0.01 * log2(log2(m) / 2)` for the unscaled
/// squared magnitude `m`, carried out in Q16 with the piecewise-linear
/// logarithm.  Subtracting `64 * 65536` removes the doubled scale from the
/// first logarithm; subtracting `17 * 65536` removes the Q16 scale from
/// the argument of the second and divides it by two; `655` is 0.01 in Q16.
pub open spec fn shade_q16_s(n2: int) -> int {
    let y = log2_q16_s(n2 as nat) - 64 * 65536;
    let x = log2_q16_s(y as nat) - 17 * 65536;
    65536 - 655 * x / 65536
}

/// For every magnitude above the escape threshold the shade is a proper
/// fraction: strictly between 0 and 1 in Q16.
pub proof fn lemma_shade_bounds(n2: int)
    requires
        ESCAPE_THRESHOLD < n2,
        n2 < 0x40_0000_0000_0000_0000_0000_0000,
    ensures
        0 < shade_q16_s(n2) < 65536,
        ilog2(n2 as nat) * 65536 <= log2_q16_s(n2 as nat),
        80 * 65536 <= log2_q16_s(n2 as nat) < 102 * 65536,
        20 * 65536 <= log2_q16_s((log2_q16_s(n2 as nat) - 64 * 65536) as nat) < 22 * 65536,
{
    lemma_pow2_values();
    let v1 = n2 as nat;
    lemma_ilog2_ge(v1, 80);
    lemma_ilog2_le(v1, 101);
    lemma_log2_q16_bounds(v1);
    let l1 = log2_q16_s(v1);
    let y = l1 - 64 * 65536;
    assert(0x10_0000 <= y < 0x40_0000);
    lemma_ilog2_ge(y as nat, 20);
    lemma_ilog2_le(y as nat, 21);
    lemma_log2_q16_bounds(y as nat);
    let l2 = log2_q16_s(y as nat);
    let x = l2 - 17 * 65536;
    assert(3 * 65536 <= x < 5 * 65536);
    assert(65536 * 1965 <= 655 * x < 65536 * 3275);
    lemma_div_is_ordered((65536 * 1965) as int, 655 * x, 65536);
    lemma_div_multiples_vanish(1965, 65536);
    lemma_multiply_divide_lt(655 * x, 65536, 3275);
}

/// Executable shade; see `shade_q16_s`.
pub fn shade_q16(n2: u128) -> (s: u32)
    requires
        (ESCAPE_THRESHOLD as u128) < n2,
        n2 < 0x40_0000_0000_0000_0000_0000_0000,
    ensures
        s as int == shade_q16_s(n2 as int),
        0 < s < 65536,
{
    proof {
        lemma_shade_bounds(n2 as int);
    }
    let l1 = log2_q16(n2);
    let y = l1 - 4194304;
    let l2 = log2_q16(y as u128);
    let x = l2 - 1114112;
    let t = 655 * x / 65536;
    (65536 - t) as u32
}

/// `c` lies in the period-2 bulb: the open disk of radius 0.25 around
/// (-1, 0), compared on squared magnitudes.
pub open spec fn bulb_test_s(c: Complex) -> bool {
    norm2s(c.re + SCALE, c.im as int) < BULB_THRESHOLD as int
}

/// The approximate main-cardioid test: with `z = c / |c|` (one fixed-point
/// normalisation, the only square root in the engine), `c` is taken to be
/// inside when `|c|^2 < |z/2 - z*z/4|^2`.  A zero `c` skips the test and
/// falls through to plain iteration.
pub open spec fn cardioid_test_s(c: Complex) -> bool {
    let n2 = c.norm2_s();
    if n2 == 0 {
        false
    } else {
        let nrm = isqrt_s(n2);
        let zre = fp_div(c.re as int, nrm);
        let zim = fp_div(c.im as int, nrm);
        let z2re = fp_mul(zre, zre) - fp_mul(zim, zim);
        let z2im = 2 * fp_mul(zre, zim);
        let wre = fp_mul(zre, HALF_SCALE as int) - fp_mul(z2re, QUARTER_SCALE as int);
        let wim = fp_mul(zim, HALF_SCALE as int) - fp_mul(z2im, QUARTER_SCALE as int);
        n2 < norm2s(wre, wim)
    }
}

/// The analytic short-circuit: membership in either of the two regions
/// that are recognised without iterating.
pub open spec fn in_short_circuit(c: Complex) -> bool {
    bulb_test_s(c) || cardioid_test_s(c)
}

/// Executable short-circuit test; see `in_short_circuit`.
pub fn in_mandelbrot_set(c: &Complex) -> (r: bool)
    requires
        c.in_bounds(),
    ensures
        r == in_short_circuit(*c),
{
    let b2 = norm2(c.re + SCALE, c.im);
    if b2 < BULB_THRESHOLD {
        return true;
    }
    let n2 = norm2(c.re, c.im);
    if n2 == 0 {
        return false;
    }
    proof {
        assert(norm2s(c.re as int, c.im as int) < 0x4000_0000_0000_0000_0000_0000_0000_0000)
            by (nonlinear_arith)
            requires
                abs(c.re as int) <= COORD_BOUND as int,
                abs(c.im as int) <= COORD_BOUND as int,
        ;
    }
    let nrm = isqrt(n2 as u128);
    proof {
        let cre = c.re as int;
        let cim = c.im as int;
        let r = nrm as int;
        assert(cim * cim >= 0) by (nonlinear_arith);
        assert(cre * cre >= 0) by (nonlinear_arith);
        assert(-r <= cre <= r && -r <= cim <= r) by (nonlinear_arith)
            requires
                0 <= r,
                cre * cre >= 0,
                cim * cim >= 0,
                cre * cre + cim * cim < (r + 1) * (r + 1),
        ;
        assert(r >= 1) by (nonlinear_arith)
            requires
                0 <= r,
                cre * cre + cim * cim >= 1,
                cre * cre + cim * cim < (r + 1) * (r + 1),
        ;
    }
    let zre = div_fp(c.re, nrm);
    let zim = div_fp(c.im, nrm);
    proof {
        assert((SCALE as int) * (SCALE as int) == 0x1_0000_0000_0000_0000);
        assert(0x1_0000_0000_0000_0000int / (SCALE as int) == SCALE as int);
        lemma_fp_mul_bound(zre as int, zre as int, SCALE as int, SCALE as int);
        lemma_fp_mul_bound(zim as int, zim as int, SCALE as int, SCALE as int);
        lemma_fp_mul_bound(zre as int, zim as int, SCALE as int, SCALE as int);
    }
    let sa = mul_fp(zre, zre);
    let sb = mul_fp(zim, zim);
    let z2re = sa - sb;
    let z2im = 2 * mul_fp(zre, zim);
    proof {
        assert((SCALE as int) * (HALF_SCALE as int) == 0x8000_0000_0000_0000);
        assert(0x8000_0000_0000_0000int / (SCALE as int) == HALF_SCALE as int);
        lemma_fp_mul_bound(zre as int, HALF_SCALE as int, SCALE as int, HALF_SCALE as int);
        lemma_fp_mul_bound(zim as int, HALF_SCALE as int, SCALE as int, HALF_SCALE as int);
        assert((SCALE as int) * (QUARTER_SCALE as int) == 0x4000_0000_0000_0000);
        assert(0x4000_0000_0000_0000int / (SCALE as int) == QUARTER_SCALE as int);
        lemma_fp_mul_bound(z2re as int, QUARTER_SCALE as int, SCALE as int, QUARTER_SCALE as int);
        lemma_fp_mul_bound(
            z2im as int,
            QUARTER_SCALE as int,
            2 * SCALE as int,
            QUARTER_SCALE as int,
        );
        assert((2 * (SCALE as int)) * (QUARTER_SCALE as int) == 0x8000_0000_0000_0000);
    }
    let wre = mul_fp(zre, HALF_SCALE) - mul_fp(z2re, QUARTER_SCALE);
    let wim = mul_fp(zim, HALF_SCALE) - mul_fp(z2im, QUARTER_SCALE);
    let w2 = norm2(wre, wim);
    n2 < w2
}

/// One run of the iteration from state `(zre, zim)` at step `i`: the first
/// escape at or after `i`, with its smoothed value, or `None` if the
/// budget `max` is exhausted first.
pub open spec fn escape_run(c: Complex, zre: int, zim: int, i: nat, max: nat) -> Option<
    EscapeValue,
>
    decreases max - i,
{
    if i >= max {
        None
    } else {
        let nre = step_re(zre, zim, c.re as int);
        let nim = step_im(zre, zim, c.im as int);
        let n2 = norm2s(nre, nim);
        if n2 > ESCAPE_THRESHOLD as int {
            Some(EscapeValue { steps: i as u32, shade: shade_q16_s(n2) as u32 })
        } else {
            escape_run(c, nre, nim, i + 1, max)
        }
    }
}

/// What the evaluator returns: `None` for a point recognised or presumed
/// to belong to the set, otherwise the first escape of the iteration
/// started at zero.
pub open spec fn escape_time_s(c: Complex, max: nat) -> Option<EscapeValue> {
    if in_short_circuit(c) {
        None
    } else {
        escape_run(c, 0, 0, 0, max)
    }
}

/// Executable evaluator; see `escape_time_s`.  Returns `None` when `c`
/// does not provably diverge within `max_iterations` steps, and the
/// completed step count with its fractional shade when it does.
pub fn escape_time(c: &Complex, max_iterations: u32) -> (r: Option<EscapeValue>)
    requires
        c.in_bounds(),
    ensures
        r == escape_time_s(*c, max_iterations as nat),
{
    if in_mandelbrot_set(c) {
        return None;
    }
    let mut zre: i64 = 0;
    let mut zim: i64 = 0;
    let mut i: u32 = 0;
    while i < max_iterations
        invariant
            c.in_bounds(),
            i <= max_iterations,
            norm2s(zre as int, zim as int) <= ESCAPE_THRESHOLD as int,
            !in_short_circuit(*c),
            escape_run(*c, zre as int, zim as int, i as nat, max_iterations as nat)
                == escape_run(*c, 0, 0, 0, max_iterations as nat),
        decreases max_iterations - i,
    {
        proof {
            assert((zim as int) * (zim as int) >= 0) by (nonlinear_arith);
            assert((zre as int) * (zre as int) >= 0) by (nonlinear_arith);
            assert(0x100_0000_0000int * 0x100_0000_0000 == ESCAPE_THRESHOLD as int);
            lemma_sq_bound(zre as int, 0x100_0000_0000);
            lemma_sq_bound(zim as int, 0x100_0000_0000);
            lemma_fp_mul_bound(zre as int, zre as int, 0x100_0000_0000, 0x100_0000_0000);
            lemma_fp_mul_bound(zim as int, zim as int, 0x100_0000_0000, 0x100_0000_0000);
            lemma_fp_mul_bound(zre as int, zim as int, 0x100_0000_0000, 0x100_0000_0000);
            assert((ESCAPE_THRESHOLD as int) / (SCALE as int) == 0x1_0000_0000_0000);
        }
        let sa = mul_fp(zre, zre);
        let sb = mul_fp(zim, zim);
        let cross = mul_fp(zre, zim);
        let nre = sa - sb + c.re;
        let nim = 2 * cross + c.im;
        let n2 = norm2(nre, nim);
        if n2 > ESCAPE_THRESHOLD {
            proof {
                assert(norm2s(nre as int, nim as int) < 0x40_0000_0000_0000_0000_0000_0000)
                    by (nonlinear_arith)
                    requires
                        -0x4_0000_0000_0000 <= nre as int <= 0x4_0000_0000_0000,
                        -0x4_0000_0000_0000 <= nim as int <= 0x4_0000_0000_0000,
                ;
            }
            let sh = shade_q16(n2 as u128);
            proof {
                assert(escape_run(*c, zre as int, zim as int, i as nat, max_iterations as nat)
                    == Some(EscapeValue { steps: i, shade: sh }));
            }
            return Some(EscapeValue { steps: i, shade: sh });
        }
        proof {
            assert(escape_run(*c, zre as int, zim as int, i as nat, max_iterations as nat)
                == escape_run(
                *c,
                nre as int,
                nim as int,
                (i + 1) as nat,
                max_iterations as nat,
            ));
        }
        zre = nre;
        zim = nim;
        i = i + 1;
    }
    proof {
        assert(escape_run(*c, zre as int, zim as int, i as nat, max_iterations as nat)
            == None::<EscapeValue>);
    }
    None
}

} // verus!
