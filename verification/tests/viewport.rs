use mandelbrot::complex::Complex;
use mandelbrot::fixed::SCALE;
use mandelbrot::settings::ApplicationSettings;
use mandelbrot::viewport::{Key, PlotRange, Point};

fn baseline() -> PlotRange {
    PlotRange {
        top_left: Complex::new(-2 * SCALE, -(5 * SCALE / 4)),
        bottom_right: Complex::new(SCALE, 5 * SCALE / 4),
    }
}

#[test]
fn index_zero_maps_exactly_to_top_left() {
    let pr = baseline();
    let p = pr.index_to_point(0, 800, 600);
    assert_eq!(p, pr.top_left);
}

#[test]
fn mapping_is_monotone_along_rows_and_columns() {
    let pr = baseline();
    let a = pr.index_to_point(0, 800, 600);
    let b = pr.index_to_point(1, 800, 600);
    let c = pr.index_to_point(799, 800, 600);
    let d = pr.index_to_point(800, 800, 600);
    assert!(a.re < b.re && b.re < c.re);
    assert_eq!(a.im, b.im);
    assert_eq!(a.re, d.re);
    assert!(a.im < d.im);
}

#[test]
fn last_index_stays_inside_the_rectangle() {
    let pr = baseline();
    let p = pr.index_to_point(800 * 600 - 1, 800, 600);
    assert!(p.re < pr.bottom_right.re);
    assert!(p.im < pr.bottom_right.im);
}

#[test]
fn shift_left_then_right_restores_exactly() {
    let mut pr = baseline();
    let orig = pr;
    pr.shift(Key::Left);
    assert_ne!(pr, orig);
    pr.shift(Key::Right);
    assert_eq!(pr, orig);
}

#[test]
fn shift_up_then_down_restores_exactly() {
    let mut pr = baseline();
    let orig = pr;
    pr.shift(Key::Up);
    pr.shift(Key::Down);
    assert_eq!(pr, orig);
}

#[test]
fn shift_moves_by_one_twentieth_of_the_width() {
    let mut pr = baseline();
    let w = 3 * SCALE;
    pr.shift(Key::Right);
    assert_eq!(pr.top_left.re, -2 * SCALE + w / 20);
    assert_eq!(pr.bottom_right.re, SCALE + w / 20);
    assert_eq!(pr.top_left.im, -(5 * SCALE / 4));
}

#[test]
fn zoom_in_halves_the_rectangle_and_raises_the_budget() {
    let mut pr = baseline();
    let mut s = ApplicationSettings::new();
    pr.zoom(Point::new(400, 300), false, &mut s, 800, 600);
    assert_eq!(s.max_iterations, 517);
    assert_eq!(s.zoom, 2);
    let w = pr.bottom_right.re - pr.top_left.re;
    assert_eq!(w, 2 * ((3 * SCALE) / 4));
}

#[test]
fn zoom_round_trip_at_centre_nearly_restores_rectangle() {
    let mut pr = baseline();
    let orig = pr;
    let mut s = ApplicationSettings::new();
    pr.zoom(Point::new(400, 300), false, &mut s, 800, 600);
    pr.zoom(Point::new(400, 300), true, &mut s, 800, 600);
    assert_eq!(s.max_iterations, 512);
    let z = 2;
    assert!(pr.top_left.re - orig.top_left.re >= 0 && pr.top_left.re - orig.top_left.re < z);
    assert!(pr.top_left.im - orig.top_left.im >= 0 && pr.top_left.im - orig.top_left.im < z);
    assert!(orig.bottom_right.re - pr.bottom_right.re >= 0);
    assert!(orig.bottom_right.re - pr.bottom_right.re <= z);
    assert!(orig.bottom_right.im - pr.bottom_right.im >= 0);
    assert!(orig.bottom_right.im - pr.bottom_right.im <= z);
}

#[test]
fn budget_never_drops_below_one() {
    let mut pr = baseline();
    let mut s = ApplicationSettings { zoom: 2, max_iterations: 3 };
    pr.zoom(Point::new(400, 300), true, &mut s, 800, 600);
    assert_eq!(s.max_iterations, 1);
    pr.zoom(Point::new(400, 300), true, &mut s, 800, 600);
    assert_eq!(s.max_iterations, 1);
}

#[test]
fn zoom_recentres_on_the_focus_pixel() {
    let mut pr = baseline();
    let mut s = ApplicationSettings::new();
    // Focus on the left quarter of the grid: the midpoint of the new
    // rectangle is the focused coordinate.
    let focus = pr.index_to_point(200, 800, 600);
    pr.zoom(Point::new(200, 0), false, &mut s, 800, 600);
    let mid = pr.top_left.re + (pr.bottom_right.re - pr.top_left.re) / 2;
    assert_eq!(mid, focus.re);
}
