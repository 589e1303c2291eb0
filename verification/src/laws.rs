//! The engine's global guarantees, stated and proved over the
//! specification functions that the executable contracts are written
//! against.

use vstd::prelude::*;

verus! {

use vstd::math::abs;
use vstd::arithmetic::div_mod::{
    lemma_div_denominator, lemma_div_is_ordered, lemma_div_is_ordered_by_denominator, lemma_div_plus_one,
    lemma_div_multiples_vanish, lemma_div_pos_is_pos, lemma_fundamental_div_mod,
    lemma_mod_division_less_than_divisor, lemma_multiply_divide_lt,
};
use vstd::arithmetic::mul::{
    lemma_mul_inequality, lemma_mul_is_associative, lemma_mul_is_commutative,
    lemma_mul_nonnegative,
};
use crate::complex::{step_im, step_re, Complex};
use crate::engine::{baseline_rendered, Application};
use crate::evaluate::{
    bulb_test_s, cardioid_test_s, escape_run, escape_time_s, in_short_circuit, EscapeValue,
    BULB_THRESHOLD, ESCAPE_THRESHOLD,
};
use crate::fixed::{
    fp_div, fp_mul, isqrt_s, lemma_fp_div_bound, lemma_fp_mul_bound, lemma_isqrt_bounds, norm2s,
    HALF_SCALE, QUARTER_SCALE, SCALE,
};
use crate::palette::{color_s, lemma_palette_entry_bounds, PALETTE_SIZE, SET_COLOR};
use crate::settings::{adjust_iterations_s, ApplicationSettings, ITER_MAX, ITER_MIN, ITER_STEP};
use crate::viewport::{opposite, Key, PlotRange};

/// A point recognised by the analytic short-circuit — in particular every
/// point of the period-2 bulb — is reported as belonging to the set
/// without a single iteration step: by definition of `escape_time_s`, the
/// iteration is never entered.
pub proof fn lemma_short_circuit_returns_none(c: Complex, max: nat)
    requires
        in_short_circuit(c),
    ensures
        escape_time_s(c, max) == None::<EscapeValue>,
{
}

/// Every point whose squared magnitude exceeds the escape threshold — in
/// particular every point farther than 256 from the origin — escapes at
/// the very first step: with any positive budget the evaluator reports
/// divergence with step count zero.  (Near the classical radius-2 bound
/// escape still occurs, but only after a number of steps that grows
/// without bound as the boundary is approached, so no fixed budget covers
/// all of it; the law is stated at the engine's own escape radius.)
pub proof fn lemma_far_point_escapes(c: Complex, max: nat)
    requires
        c.in_bounds(),
        c.norm2_s() > ESCAPE_THRESHOLD as int,
        max >= 1,
    ensures
        escape_time_s(c, max) matches Some(e) && e.steps == 0,
{
    let cre = c.re as int;
    let cim = c.im as int;
    lemma_far_point_not_in_bulb(c);
    lemma_far_point_not_in_cardioid(c);
    assert(!in_short_circuit(c));
    assert(fp_mul(0, 0) == 0) by {
        assert(abs(0) == 0);
        assert(abs(0) * abs(0) == 0);
        vstd::arithmetic::div_mod::lemma_div_of0(SCALE as int);
    }
    assert(step_re(0, 0, cre) == cre);
    assert(step_im(0, 0, cim) == cim);
    assert(escape_time_s(c, max) == escape_run(c, 0, 0, 0, max));
    assert(escape_run(c, 0, 0, 0, max) matches Some(e) && e.steps == 0);
}

/// A point beyond the escape radius lies far outside the period-2 bulb.
proof fn lemma_far_point_not_in_bulb(c: Complex)
    requires
        c.norm2_s() > ESCAPE_THRESHOLD as int,
    ensures
        !bulb_test_s(c),
{
    let cre = c.re as int;
    let cim = c.im as int;
    assert(cim * cim >= 0) by (nonlinear_arith);
    assert(c.norm2_s() == cre * cre + cim * cim);
    if cim * cim < BULB_THRESHOLD as int {
        assert(cre * cre > 0x8000_0000_0000_0000_0000);
        assert(cre > 0x80_0000_0000 || cre < -0x80_0000_0000) by (nonlinear_arith)
            requires
                cre * cre > 0x8000_0000_0000_0000_0000,
        ;
        assert((cre + SCALE as int) * (cre + SCALE as int) >= BULB_THRESHOLD as int)
            by (nonlinear_arith)
            requires
                cre + 0x1_0000_0000 > 0x40_0000_0000 || cre + 0x1_0000_0000 < -0x40_0000_0000,
        ;
    } else {
        assert((cre + SCALE as int) * (cre + SCALE as int) >= 0) by (nonlinear_arith);
    }
}

/// A point beyond the escape radius fails the approximate cardioid test:
/// its normalisation has magnitude about one, so the compared value
/// `|z/2 - z*z/4|^2` stays below two units squared, far below the point's
/// own squared magnitude.
proof fn lemma_far_point_not_in_cardioid(c: Complex)
    requires
        c.norm2_s() > ESCAPE_THRESHOLD as int,
    ensures
        !cardioid_test_s(c),
{
    let cre = c.re as int;
    let cim = c.im as int;
    let n2 = c.norm2_s();
    let nrm = isqrt_s(n2);
    lemma_isqrt_bounds(n2);
    assert(cim * cim >= 0) by (nonlinear_arith);
    assert(cre * cre >= 0) by (nonlinear_arith);
    assert(-nrm <= cre <= nrm && -nrm <= cim <= nrm) by (nonlinear_arith)
        requires
            0 <= nrm,
            cre * cre >= 0,
            cim * cim >= 0,
            cre * cre + cim * cim < (nrm + 1) * (nrm + 1),
    ;
    assert(nrm >= 1) by (nonlinear_arith)
        requires
            0 <= nrm,
            cre * cre + cim * cim >= 1,
            cre * cre + cim * cim < (nrm + 1) * (nrm + 1),
    ;
    let zre = fp_div(cre, nrm);
    let zim = fp_div(cim, nrm);
    lemma_fp_div_bound(cre, nrm);
    lemma_fp_div_bound(cim, nrm);
    let s = SCALE as int;
    assert(s * s == 0x1_0000_0000_0000_0000);
    assert(0x1_0000_0000_0000_0000int / s == s);
    lemma_fp_mul_bound(zre, zre, s, s);
    lemma_fp_mul_bound(zim, zim, s, s);
    lemma_fp_mul_bound(zre, zim, s, s);
    let z2re = fp_mul(zre, zre) - fp_mul(zim, zim);
    let z2im = 2 * fp_mul(zre, zim);
    assert(s * (HALF_SCALE as int) == 0x8000_0000_0000_0000);
    assert(0x8000_0000_0000_0000int / s == HALF_SCALE as int);
    lemma_fp_mul_bound(zre, HALF_SCALE as int, s, HALF_SCALE as int);
    lemma_fp_mul_bound(zim, HALF_SCALE as int, s, HALF_SCALE as int);
    assert(s * (QUARTER_SCALE as int) == 0x4000_0000_0000_0000);
    assert(0x4000_0000_0000_0000int / s == QUARTER_SCALE as int);
    lemma_fp_mul_bound(z2re, QUARTER_SCALE as int, s, QUARTER_SCALE as int);
    lemma_fp_mul_bound(z2im, QUARTER_SCALE as int, 2 * s, QUARTER_SCALE as int);
    assert((2 * s) * (QUARTER_SCALE as int) == 0x8000_0000_0000_0000);
    let wre = fp_mul(zre, HALF_SCALE as int) - fp_mul(z2re, QUARTER_SCALE as int);
    let wim = fp_mul(zim, HALF_SCALE as int) - fp_mul(z2im, QUARTER_SCALE as int);
    assert(norm2s(wre, wim) <= 0x2_0000_0000_0000_0000) by (nonlinear_arith)
        requires
            -0x1_0000_0000 <= wre <= 0x1_0000_0000,
            -0x1_0000_0000 <= wim <= 0x1_0000_0000,
    ;
}

/// A divergence report never claims more steps than the budget allows:
/// whenever the evaluator returns an escape, its step count is below the
/// iteration maximum.
pub proof fn lemma_escape_steps_below_budget(c: Complex, max: nat)
    requires
        max <= 0xFFFF_FFFF,
    ensures
        escape_time_s(c, max) matches Some(e) ==> (e.steps as nat) < max,
{
    lemma_escape_run_steps(c, 0, 0, 0, max);
}

proof fn lemma_escape_run_steps(c: Complex, zre: int, zim: int, i: nat, max: nat)
    requires
        i <= max,
        max <= 0xFFFF_FFFF,
    ensures
        escape_run(c, zre, zim, i, max) matches Some(e) ==> i <= e.steps as nat && (
        e.steps as nat) < max,
    decreases max - i,
{
    if i < max {
        let nre = step_re(zre, zim, c.re as int);
        let nim = step_im(zre, zim, c.im as int);
        if norm2s(nre, nim) > ESCAPE_THRESHOLD as int {
        } else {
            lemma_escape_run_steps(c, nre, nim, i + 1, max);
        }
    }
}

/// Pixel index zero maps exactly onto the top-left corner of the
/// viewport.
pub proof fn lemma_index_zero_is_top_left(pr: PlotRange, gw: int, gh: int)
    requires
        pr.wf(),
        0 < gw,
        0 < gh,
    ensures
        pr.point_at_s(0, gw, gh) == pr.top_left,
{
    assert(0int % gw == 0) by {
        lemma_mod_division_less_than_divisor(0, gw);
    }
    assert(0int / gw == 0) by {
        vstd::arithmetic::div_mod::lemma_div_of0(gw);
    }
    assert(0int * pr.width_s() == 0);
    assert(0int / gh == 0) by {
        vstd::arithmetic::div_mod::lemma_div_of0(gh);
    }
}

/// The pixel-to-point mapping is monotone: moving right along a row never
/// decreases the real part, and moving down never decreases the imaginary
/// part.
pub proof fn lemma_point_monotone(pr: PlotRange, gw: int, gh: int, idx1: int, idx2: int)
    requires
        pr.wf(),
        0 < gw,
        0 < gh,
        0 <= idx1,
        0 <= idx2,
        idx1 < gw * gh,
        idx2 < gw * gh,
        idx1 % gw <= idx2 % gw,
        idx1 / gw <= idx2 / gw,
    ensures
        pr.point_at_s(idx1, gw, gh).re <= pr.point_at_s(idx2, gw, gh).re,
        pr.point_at_s(idx1, gw, gh).im <= pr.point_at_s(idx2, gw, gh).im,
{
    let w = pr.width_s();
    let h = pr.height_s();
    let col1 = idx1 % gw;
    let col2 = idx2 % gw;
    let row1 = idx1 / gw;
    let row2 = idx2 / gw;
    lemma_mod_division_less_than_divisor(idx1, gw);
    lemma_mod_division_less_than_divisor(idx2, gw);
    lemma_div_pos_is_pos(idx1, gw);
    lemma_div_pos_is_pos(idx2, gw);
    lemma_multiply_divide_lt(idx1, gw, gh);
    lemma_multiply_divide_lt(idx2, gw, gh);
    lemma_mul_inequality(col1, col2, w);
    lemma_mul_is_commutative(col1, w);
    lemma_mul_is_commutative(col2, w);
    lemma_div_is_ordered(col1 * w, col2 * w, gw);
    lemma_mul_inequality(row1, row2, h);
    lemma_mul_is_commutative(row1, h);
    lemma_mul_is_commutative(row2, h);
    lemma_div_is_ordered(row1 * h, row2 * h, gh);
    lemma_mul_nonnegative(col1, w);
    lemma_mul_nonnegative(row1, h);
    assert(col2 * w < gw * w) by (nonlinear_arith)
        requires
            0 <= col2 < gw,
            w > 0,
    ;
    lemma_multiply_divide_lt(col2 * w, gw, w);
    assert(row2 * h < gh * h) by (nonlinear_arith)
        requires
            0 <= row2 < gh,
            h > 0,
    ;
    lemma_multiply_divide_lt(row2 * h, gh, h);
}

/// One axis of a zoom-in followed by a zoom-out, both focused on the
/// centre pixel of an even grid: the midpoint computation is exact, the
/// half-extents relate by the zoom factor, and the restored endpoints
/// miss the originals by less than one zoom factor of fixed-point units.
proof fn lemma_zoom_axis(lo: int, hi: int, g: int, z: int)
    requires
        lo < hi,
        2 <= g,
        g % 2 == 0,
        2 <= z,
        hi - lo >= 2 * z,
    ensures
        ({
            let w = hi - lo;
            let half1 = w / (2 * z);
            &&& ((g / 2) * w) / g == w / 2
            &&& 1 <= half1
            &&& half1 <= w / 2
            &&& lo <= lo + w / 2 - half1
            &&& lo + w / 2 + half1 <= hi
            &&& ((g / 2) * (2 * half1)) / g == half1
            &&& ((2 * half1) * z) / 2 == half1 * z
            &&& 0 <= w / 2 - half1 * z < z
            &&& -z <= w / 2 + half1 * z - w <= 0
        }),
{
    let w = hi - lo;
    let K = g / 2;
    let half1 = w / (2 * z);
    lemma_fundamental_div_mod(g, 2);
    lemma_mod_division_less_than_divisor(g, 2);
    assert(g == 2 * K);
    lemma_mul_nonnegative(K, w);
    lemma_div_denominator(K * w, K, 2);
    lemma_div_multiples_vanish(w, K);
    lemma_mul_is_commutative(K, 2);
    assert((K * w) / g == w / 2);
    lemma_div_denominator(w, 2, z);
    assert(half1 == (w / 2) / z);
    assert((2 * z) * 1 == 2 * z);
    lemma_div_multiples_vanish(1, 2 * z);
    lemma_div_is_ordered(2 * z, w, 2 * z);
    assert(1 <= half1);
    lemma_fundamental_div_mod(w, 2);
    lemma_mod_division_less_than_divisor(w, 2);
    lemma_div_is_ordered_by_denominator(w, 2, 2 * z);
    lemma_fundamental_div_mod(w / 2, z);
    lemma_mod_division_less_than_divisor(w / 2, z);
    lemma_mul_is_commutative(z, half1);
    let w1 = 2 * half1;
    lemma_mul_nonnegative(K, w1);
    lemma_div_denominator(K * w1, K, 2);
    lemma_div_multiples_vanish(w1, K);
    assert((K * w1) / g == w1 / 2);
    lemma_div_multiples_vanish(half1, 2);
    lemma_mul_is_associative(2, half1, z);
    assert(w1 * z == 2 * (half1 * z));
    lemma_div_multiples_vanish(half1 * z, 2);
}

/// Zooming in and back out, both focused on the centre pixel of an even
/// grid, restores the viewport to within one zoom factor of fixed-point
/// units per coordinate (the residue is the rounding of the halved
/// extents), and — see `lemma_budget_round_trip` — restores the
/// iteration budget exactly.  Away from the grid centre the recentring
/// itself moves the rectangle, so exact restoration cannot hold there.
pub proof fn lemma_zoom_round_trip(pr: PlotRange, s: ApplicationSettings, gw: int, gh: int)
    requires
        pr.wf(),
        s.wf(),
        2 <= gw,
        gw % 2 == 0,
        2 <= gh,
        gh % 2 == 0,
        pr.width_s() >= 2 * (s.zoom as int),
        pr.height_s() >= 2 * (s.zoom as int),
    ensures
        ({
            let z = s.zoom as int;
            let pr1 = pr.zoom_s(gw / 2, gh / 2, false, z, gw, gh);
            let pr2 = pr1.zoom_s(gw / 2, gh / 2, true, z, gw, gh);
            &&& 0 <= pr2.top_left.re - pr.top_left.re < z
            &&& 0 <= pr2.top_left.im - pr.top_left.im < z
            &&& -z <= pr2.bottom_right.re - pr.bottom_right.re <= 0
            &&& -z <= pr2.bottom_right.im - pr.bottom_right.im <= 0
        }),
{
    let z = s.zoom as int;
    let lo_re = pr.top_left.re as int;
    let hi_re = pr.bottom_right.re as int;
    let lo_im = pr.top_left.im as int;
    let hi_im = pr.bottom_right.im as int;
    lemma_zoom_axis(lo_re, hi_re, gw, z);
    lemma_zoom_axis(lo_im, hi_im, gh, z);
    let w = hi_re - lo_re;
    let h = hi_im - lo_im;
    let hx = w / (2 * z);
    let hy = h / (2 * z);
    let mid_re = lo_re + w / 2;
    let mid_im = lo_im + h / 2;
    let t1 = pr.zoom_target_s(gw / 2, gh / 2, false, z, gw, gh);
    assert(t1.top_left.re as int == mid_re - hx);
    assert(t1.top_left.im as int == mid_im - hy);
    assert(t1.bottom_right.re as int == mid_re + hx);
    assert(t1.bottom_right.im as int == mid_im + hy);
    assert(t1.wf());
    let pr1 = pr.zoom_s(gw / 2, gh / 2, false, z, gw, gh);
    assert(pr1 == t1);
    assert(pr1.width_s() == 2 * hx);
    assert(pr1.height_s() == 2 * hy);
    let t2 = pr1.zoom_target_s(gw / 2, gh / 2, true, z, gw, gh);
    assert(t2.top_left.re as int == mid_re - hx * z);
    assert(t2.top_left.im as int == mid_im - hy * z);
    assert(t2.bottom_right.re as int == mid_re + hx * z);
    assert(t2.bottom_right.im as int == mid_im + hy * z);
    assert(t2.wf());
    let pr2 = pr1.zoom_s(gw / 2, gh / 2, true, z, gw, gh);
    assert(pr2 == t2);
}

/// When the rectangle holds at least one fixed-point unit per pixel
/// column, the mapping is strictly increasing along a row: a later pixel
/// of the same row gets a strictly larger real part.
pub proof fn lemma_point_strictly_monotone_in_row(
    pr: PlotRange,
    gw: int,
    gh: int,
    idx1: int,
    idx2: int,
)
    requires
        pr.wf(),
        0 < gw,
        0 < gh,
        0 <= idx1 < idx2,
        idx2 < gw * gh,
        idx1 / gw == idx2 / gw,
        pr.width_s() >= gw,
    ensures
        pr.point_at_s(idx1, gw, gh).re < pr.point_at_s(idx2, gw, gh).re,
{
    let w = pr.width_s();
    let col1 = idx1 % gw;
    let col2 = idx2 % gw;
    lemma_fundamental_div_mod(idx1, gw);
    lemma_fundamental_div_mod(idx2, gw);
    lemma_mod_division_less_than_divisor(idx1, gw);
    lemma_mod_division_less_than_divisor(idx2, gw);
    assert(col1 < col2);
    lemma_mul_inequality(col1 + 1, col2, w);
    lemma_mul_is_commutative(col1 + 1, w);
    lemma_mul_is_commutative(col2, w);
    assert(w * (col1 + 1) == w * col1 + w) by (nonlinear_arith);
    lemma_mul_is_commutative(col1, w);
    lemma_mul_nonnegative(col1, w);
    lemma_div_plus_one(col1 * w, gw);
    lemma_div_is_ordered(gw + col1 * w, col2 * w, gw);
    lemma_div_is_ordered(col1 * w + gw, col1 * w + w, gw);
    lemma_mul_nonnegative(col2, w);
    assert(col2 * w < gw * w) by (nonlinear_arith)
        requires
            0 <= col2 < gw,
            w > 0,
    ;
    lemma_multiply_divide_lt(col2 * w, gw, w);
    lemma_div_pos_is_pos(col1 * w, gw);
}

/// A pan step that stays in range is undone exactly — bitwise, since both
/// deltas are computed from the same unchanged width — by the opposite
/// pan step.
pub proof fn lemma_shift_round_trip(pr: PlotRange, direction: Key)
    requires
        pr.wf(),
        pr.shift_target_s(direction).wf(),
    ensures
        pr.shift_s(direction).shift_s(opposite(direction)) == pr,
{
    let t = pr.shift_target_s(direction);
    assert(pr.shift_s(direction) == t);
    assert(t.width_s() == pr.width_s());
    assert(t.shift_target_s(opposite(direction)) == pr);
}

/// A pan step never changes the rectangle's size: both corners move by
/// the same delta, so width and height are preserved whether or not the
/// step is applied.
pub proof fn lemma_shift_preserves_extents(pr: PlotRange, direction: Key)
    requires
        pr.wf(),
    ensures
        pr.shift_s(direction).width_s() == pr.width_s(),
        pr.shift_s(direction).height_s() == pr.height_s(),
{
}

/// One zoom step in and one zoom step out restore the iteration budget
/// exactly, as long as the ceiling is not hit on the way up.
pub proof fn lemma_budget_round_trip(m: int)
    requires
        ITER_MIN <= m,
        m <= ITER_MAX - ITER_STEP,
    ensures
        adjust_iterations_s(adjust_iterations_s(m, false), true) == m,
{
}

/// After `reset`, an engine is indistinguishable — viewport, settings and
/// every pixel of the buffer — from a freshly constructed engine of the
/// same grid size on which `update` has run.
pub proof fn lemma_reset_matches_fresh(a: Application, b: Application)
    requires
        a.wf(),
        b.wf(),
        a.width_spec() == b.width_spec(),
        a.height_spec() == b.height_spec(),
        baseline_rendered(a),
        baseline_rendered(b),
    ensures
        a.plot_range_spec() == b.plot_range_spec(),
        a.settings_spec() == b.settings_spec(),
        a.buffer_spec() == b.buffer_spec(),
{
    assert(a.buffer_spec().len() == b.buffer_spec().len());
    assert(a.buffer_spec() =~= b.buffer_spec());
}

/// The palette lookup is total and sharp: the sentinel colour appears
/// exactly for points reported inside the set, and every other verdict
/// gets an in-range palette entry, whatever the step count.
pub proof fn lemma_color_sentinel_iff_inside(r: Option<EscapeValue>)
    ensures
        (color_s(r) == SET_COLOR as int) <==> (r is None),
        r is Some ==> 0 <= (r->Some_0.steps as int) % (PALETTE_SIZE as int) < PALETTE_SIZE as int,
{
    match r {
        Option::None => {
        },
        Option::Some(e) => {
            lemma_mod_division_less_than_divisor(e.steps as int, PALETTE_SIZE as int);
            lemma_palette_entry_bounds((e.steps as int) % (PALETTE_SIZE as int));
        },
    }
}

} // verus!
