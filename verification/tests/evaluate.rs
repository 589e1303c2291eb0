use mandelbrot::complex::Complex;
use mandelbrot::evaluate::{escape_time, in_mandelbrot_set, EscapeValue};
use mandelbrot::fixed::{isqrt, mul_fp, SCALE};
use mandelbrot::log2::log2_q16;

fn fp(units: i64, num: i64, den: i64) -> i64 {
    units * SCALE + num * SCALE / den
}

#[test]
fn far_point_escapes_at_step_zero() {
    let c = Complex::new(300 * SCALE, 0);
    let r = escape_time(&c, 512);
    match r {
        Some(e) => {
            assert_eq!(e.steps, 0);
            assert!(e.shade > 0 && e.shade < 65536);
        }
        None => panic!("a point of magnitude 300 must escape"),
    }
}

#[test]
fn shade_has_exact_value_for_known_magnitude() {
    // |c| = 300: the squared magnitude at escape is 90000, and the
    // piecewise-linear Q16 smoothing gives exactly 63556.
    let c = Complex::new(300 * SCALE, 0);
    let r = escape_time(&c, 512).expect("escapes at once");
    assert_eq!(r.shade, 63556);
}

#[test]
fn point_outside_radius_two_diverges() {
    let c = Complex::new(3 * SCALE, 0);
    assert!(escape_time(&c, 512).is_some());
    let c2 = Complex::new(0, -3 * SCALE);
    assert!(escape_time(&c2, 512).is_some());
}

#[test]
fn bulb_centre_is_recognised_without_iterating() {
    let c = Complex::new(-SCALE, 0);
    assert!(in_mandelbrot_set(&c));
    assert_eq!(escape_time(&c, 512), None);
}

#[test]
fn bulb_interior_point_is_recognised() {
    // -1.125 + 0.125i lies in the period-2 bulb: squared distance from
    // (-1, 0) is 0.03125 < 0.0625.
    let c = Complex::new(fp(-2, 7, 8), fp(0, 1, 8));
    assert!(in_mandelbrot_set(&c));
    assert_eq!(escape_time(&c, 512), None);
}

#[test]
fn origin_is_not_short_circuited_but_stays_bounded() {
    let c = Complex::new(0, 0);
    assert!(!in_mandelbrot_set(&c));
    assert_eq!(escape_time(&c, 512), None);
}

#[test]
fn imaginary_unit_cycles_and_stays_inside() {
    let c = Complex::new(0, SCALE);
    assert_eq!(escape_time(&c, 512), None);
}

#[test]
fn escaping_point_reports_plausible_step_count() {
    let c = Complex::new(fp(0, 1, 2), fp(0, 1, 2));
    assert!(!in_mandelbrot_set(&c));
    let e = escape_time(&c, 512).expect("0.5 + 0.5i escapes");
    assert!(e.steps >= 1 && e.steps < 64);
    assert!(e.shade > 0 && e.shade < 65536);
}

#[test]
fn short_budget_gives_up_on_slow_points() {
    // 0.5 + 0.5i needs a few steps; with a budget of 1 it is reported as
    // inside, as the budget bounds the approximation.
    let c = Complex::new(fp(0, 1, 2), fp(0, 1, 2));
    assert_eq!(escape_time(&c, 1), None);
}

#[test]
fn escape_value_carries_its_fields() {
    let e = EscapeValue { steps: 7, shade: 123 };
    assert_eq!(e.steps, 7);
    assert_eq!(e.shade, 123);
    assert_eq!(e.smoothed_q16(), 7 * 65536 + 123);
}

#[test]
fn smoothed_count_combines_steps_and_shade() {
    let c = Complex::new(300 * SCALE, 0);
    let e = escape_time(&c, 512).expect("escapes at once");
    assert_eq!(e.smoothed_q16(), 63556);
}

#[test]
fn fixed_point_multiplication_is_exact_on_integers() {
    assert_eq!(mul_fp(3 * SCALE, 2 * SCALE), 6 * SCALE);
    assert_eq!(mul_fp(3 * SCALE, -2 * SCALE), -6 * SCALE);
    assert_eq!(mul_fp(-3 * SCALE, -2 * SCALE), 6 * SCALE);
    assert_eq!(mul_fp(SCALE / 2, SCALE / 2), SCALE / 4);
}

#[test]
fn integer_square_root_rounds_down() {
    assert_eq!(isqrt(0), 0);
    assert_eq!(isqrt(1), 1);
    assert_eq!(isqrt(10), 3);
    assert_eq!(isqrt(16), 4);
    assert_eq!(isqrt(u64::MAX as u128), 0xFFFF_FFFF);
}

#[test]
fn q16_logarithm_is_exact_on_powers_of_two() {
    assert_eq!(log2_q16(1), 0);
    assert_eq!(log2_q16(2), 65536);
    assert_eq!(log2_q16(1024), 10 * 65536);
    // Halfway between 2^4 and 2^5 the linear interpolation gives 4.5.
    assert_eq!(log2_q16(24), 4 * 65536 + 32768);
}
