use mandelbrot::engine::Application;
use mandelbrot::evaluate::EscapeValue;
use mandelbrot::palette::{Palette, SET_COLOR};
use mandelbrot::viewport::{Key, Point};

#[test]
fn fresh_engine_has_default_size_and_zeroed_buffer() {
    let app = Application::new();
    assert_eq!(app.width(), 800);
    assert_eq!(app.height(), 600);
    let buf = app.image_buffer();
    assert_eq!(buf.len(), 800 * 600);
    assert!(buf.iter().all(|&c| c == 0));
}

#[test]
fn render_colours_every_pixel() {
    let mut app = Application::with_size(40, 30);
    app.update();
    let buf = app.image_buffer();
    assert_eq!(buf.len(), 40 * 30);
    // After a render no pixel keeps the zero fill: every colour is either
    // the sentinel or an opaque palette entry.
    assert!(buf.iter().all(|&c| c >= SET_COLOR));
}

#[test]
fn corners_diverge_and_centre_is_inside_at_baseline() {
    let w: usize = 40;
    let h: usize = 30;
    let mut app = Application::with_size(w, h);
    app.update();
    let buf = app.image_buffer().clone();
    let corners = [0, w - 1, (h - 1) * w, h * w - 1];
    for &i in corners.iter() {
        assert_ne!(buf[i], SET_COLOR, "corner pixel {} should diverge", i);
    }
    // The pixel whose coordinate is nearest the origin lies in the main
    // body of the set and must carry the sentinel colour.
    let pr = app.plot_range();
    let mut best: usize = 0;
    let mut best_d: i128 = i128::MAX;
    for i in 0..(w * h) {
        let p = pr.index_to_point(i, w, h);
        let d = (p.re as i128) * (p.re as i128) + (p.im as i128) * (p.im as i128);
        if d < best_d {
            best_d = d;
            best = i;
        }
    }
    assert_eq!(buf[best], SET_COLOR);
}

#[test]
fn reset_matches_a_freshly_rendered_engine() {
    let mut fresh = Application::with_size(16, 12);
    fresh.update();
    let mut travelled = Application::with_size(16, 12);
    travelled.zoom(Point::new(4, 3), false);
    travelled.shift(Key::Up);
    travelled.zoom(Point::new(10, 2), true);
    travelled.reset();
    assert_eq!(travelled.plot_range(), fresh.plot_range());
    assert_eq!(travelled.settings(), fresh.settings());
    assert_eq!(travelled.image_buffer(), fresh.image_buffer());
}

#[test]
fn navigation_rerenders_the_buffer() {
    let mut app = Application::with_size(16, 12);
    app.update();
    let before = app.image_buffer().clone();
    app.zoom(Point::new(8, 6), false);
    let after = app.image_buffer().clone();
    assert_eq!(after.len(), before.len());
    assert_eq!(app.settings().max_iterations, 517);
}

#[test]
fn engine_shift_round_trip_keeps_viewport() {
    let mut app = Application::with_size(16, 12);
    app.update();
    let orig = app.plot_range();
    app.shift(Key::Left);
    app.shift(Key::Right);
    assert_eq!(app.plot_range(), orig);
}

#[test]
fn palette_has_full_table_of_opaque_colours() {
    let p = Palette::new();
    for steps in [0u32, 1, 511, 1023] {
        let c = p.color_for(&Some(EscapeValue { steps, shade: 100 }));
        assert!(c > SET_COLOR);
        assert!(c >= 0xFF00_0000);
    }
}

#[test]
fn sentinel_colour_appears_exactly_for_inside_points() {
    let p = Palette::new();
    assert_eq!(p.color_for(&None), SET_COLOR);
    for steps in 0..2048u32 {
        let c = p.color_for(&Some(EscapeValue { steps, shade: 0 }));
        assert_ne!(c, SET_COLOR);
    }
}

#[test]
fn palette_index_wraps_at_table_size() {
    let p = Palette::new();
    let a = p.color_for(&Some(EscapeValue { steps: 0, shade: 0 }));
    let b = p.color_for(&Some(EscapeValue { steps: 1024, shade: 0 }));
    let c = p.color_for(&Some(EscapeValue { steps: 2048, shade: 0 }));
    assert_eq!(a, b);
    assert_eq!(b, c);
    let d = p.color_for(&Some(EscapeValue { steps: 1023, shade: 0 }));
    let e = p.color_for(&Some(EscapeValue { steps: 2047, shade: 0 }));
    assert_eq!(d, e);
}
