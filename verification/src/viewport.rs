//! The viewport: the axis-aligned rectangle of the complex plane that is
//! mapped onto the pixel grid, with its navigation operations.
//!
//! Sign convention: the real axis grows rightward and the imaginary axis
//! grows downward in pixel space, matching row-major top-to-bottom
//! iteration, so both extents are positive.  Navigation that would push a
//! corner outside the supported coordinate range leaves the rectangle
//! unchanged; the operation stays total.

use vstd::prelude::*;

verus! {

use vstd::arithmetic::div_mod::{lemma_div_pos_is_pos, lemma_multiply_divide_lt};
use vstd::arithmetic::mul::lemma_mul_nonnegative;
use crate::complex::{Complex, COORD_BOUND};
use crate::settings::ApplicationSettings;

/// A pan step moves the rectangle by this fraction of its width: 1/20,
/// i.e. five percent.
pub const PAN_DENOMINATOR: u64 = 20;

/// Largest pixel-grid extent the engine accepts on either axis.
pub const GRID_MAX: usize = 4096;

/// A pixel position on the grid, as supplied by the host from a user
/// interaction.
#[derive(Clone, Copy, Debug, PartialEq, Eq, Structural)]
pub struct Point {
    pub x: u32,
    pub y: u32,
}

impl Point {
    pub fn new(x: u32, y: u32) -> (p: Point)
        ensures
            p.x == x,
            p.y == y,
    {
        Point { x, y }
    }
}

/// A pan direction.
#[derive(Clone, Copy, Debug, PartialEq, Eq, Structural)]
pub enum Key {
    Up,
    Down,
    Left,
    Right,
}

/// The direction that undoes a pan step.
pub open spec fn opposite(direction: Key) -> Key {
    match direction {
        Key::Up => Key::Down,
        Key::Down => Key::Up,
        Key::Left => Key::Right,
        Key::Right => Key::Left,
    }
}

/// The visible rectangle of the complex plane.
#[derive(Clone, Copy, Debug, PartialEq, Eq, Structural)]
pub struct PlotRange {
    pub top_left: Complex,
    pub bottom_right: Complex,
}

impl PlotRange {
    /// Both corners are in range and both extents are positive.
    pub open spec fn wf(self) -> bool {
        &&& self.top_left.in_bounds()
        &&& self.bottom_right.in_bounds()
        &&& self.top_left.re < self.bottom_right.re
        &&& self.top_left.im < self.bottom_right.im
    }

    /// Signed real extent.
    pub open spec fn width_s(self) -> int {
        self.bottom_right.re - self.top_left.re
    }

    /// Signed imaginary extent.
    pub open spec fn height_s(self) -> int {
        self.bottom_right.im - self.top_left.im
    }

    pub fn width(&self) -> (w: i64)
        requires
            self.wf(),
        ensures
            w as int == self.width_s(),
    {
        self.bottom_right.re - self.top_left.re
    }

    pub fn height(&self) -> (h: i64)
        requires
            self.wf(),
        ensures
            h as int == self.height_s(),
    {
        self.bottom_right.im - self.top_left.im
    }

    /// The complex coordinate of a row-major pixel index: linear
    /// interpolation across the rectangle, exact at index 0.
    pub open spec fn point_at_s(self, index: int, gw: int, gh: int) -> Complex {
        let col = index % gw;
        let row = index / gw;
        Complex {
            re: (self.top_left.re + col * self.width_s() / gw) as i64,
            im: (self.top_left.im + row * self.height_s() / gh) as i64,
        }
    }

    /// Executable pixel-to-point mapping; see `point_at_s`.  The result
    /// always lies inside the rectangle, so it is in range for the
    /// evaluator.
    pub fn index_to_point(&self, index: usize, grid_width: usize, grid_height: usize) -> (p:
        Complex)
        requires
            self.wf(),
            0 < grid_width <= GRID_MAX,
            0 < grid_height <= GRID_MAX,
            index < grid_width * grid_height,
        ensures
            p == self.point_at_s(index as int, grid_width as int, grid_height as int),
            self.top_left.re <= p.re < self.bottom_right.re,
            self.top_left.im <= p.im < self.bottom_right.im,
            p.in_bounds(),
    {
        let col = index % grid_width;
        let row = index / grid_width;
        proof {
            lemma_multiply_divide_lt(index as int, grid_width as int, grid_height as int);
            lemma_mul_nonnegative(col as int, self.width_s());
            lemma_mul_nonnegative(row as int, self.height_s());
            assert((col as int) * self.width_s() < (grid_width as int) * self.width_s())
                by (nonlinear_arith)
                requires
                    0 <= (col as int) < grid_width as int,
                    self.width_s() > 0,
            ;
            lemma_multiply_divide_lt(
                (col as int) * self.width_s(),
                grid_width as int,
                self.width_s(),
            );
            lemma_div_pos_is_pos((col as int) * self.width_s(), grid_width as int);
            assert((row as int) * self.height_s() < (grid_height as int) * self.height_s())
                by (nonlinear_arith)
                requires
                    0 <= (row as int) < grid_height as int,
                    self.height_s() > 0,
            ;
            lemma_multiply_divide_lt(
                (row as int) * self.height_s(),
                grid_height as int,
                self.height_s(),
            );
            lemma_div_pos_is_pos((row as int) * self.height_s(), grid_height as int);
        }
        let w = self.width();
        let h = self.height();
        proof {
            assert((col as int) * (w as int) <= 4096 * 0x6000_0000_0000) by (nonlinear_arith)
                requires
                    0 <= (col as int) <= 4096,
                    0 <= (w as int) <= 0x6000_0000_0000,
            ;
            assert((row as int) * (h as int) <= 4096 * 0x6000_0000_0000) by (nonlinear_arith)
                requires
                    0 <= (row as int) <= 4096,
                    0 <= (h as int) <= 0x6000_0000_0000,
            ;
        }
        let dx = ((col as u64) * (w as u64)) / (grid_width as u64);
        let dy = ((row as u64) * (h as u64)) / (grid_height as u64);
        Complex { re: self.top_left.re + (dx as i64), im: self.top_left.im + (dy as i64) }
    }

    /// Where a zoom step focused on pixel `(px, py)` would put the
    /// rectangle: the focus pixel's coordinate becomes the midpoint, and
    /// each half-extent is the extent divided by twice the zoom factor
    /// (zooming in, with a floor of one unit) or multiplied by half the
    /// zoom factor (zooming out).
    pub open spec fn zoom_target_s(
        self,
        px: int,
        py: int,
        out: bool,
        zoom: int,
        gw: int,
        gh: int,
    ) -> PlotRange {
        let w = self.width_s();
        let h = self.height_s();
        let mid_x = self.top_left.re + px * w / gw;
        let mid_y = self.top_left.im + py * h / gh;
        let hx = if out {
            w * zoom / 2
        } else {
            if w / (2 * zoom) < 1 {
                1
            } else {
                w / (2 * zoom)
            }
        };
        let hy = if out {
            h * zoom / 2
        } else {
            if h / (2 * zoom) < 1 {
                1
            } else {
                h / (2 * zoom)
            }
        };
        PlotRange {
            top_left: Complex { re: (mid_x - hx) as i64, im: (mid_y - hy) as i64 },
            bottom_right: Complex { re: (mid_x + hx) as i64, im: (mid_y + hy) as i64 },
        }
    }

    /// The rectangle after a zoom step: the recentred rectangle where it
    /// is well-formed, the old rectangle where the target would leave the
    /// supported range.
    pub open spec fn zoom_s(
        self,
        px: int,
        py: int,
        out: bool,
        zoom: int,
        gw: int,
        gh: int,
    ) -> PlotRange {
        let t = self.zoom_target_s(px, py, out, zoom, gw, gh);
        if t.wf() {
            t
        } else {
            self
        }
    }

    /// Executable zoom step; see `zoom_s`.  Alongside the rectangle it
    /// adjusts the iteration budget of `settings`: up when zooming in,
    /// down when zooming out, clamped; the zoom factor is untouched.
    pub fn zoom(
        &mut self,
        point: Point,
        out: bool,
        settings: &mut ApplicationSettings,
        grid_width: usize,
        grid_height: usize,
    )
        requires
            old(self).wf(),
            old(settings).wf(),
            0 < grid_width <= GRID_MAX,
            0 < grid_height <= GRID_MAX,
            (point.x as int) < grid_width as int,
            (point.y as int) < grid_height as int,
        ensures
            *final(self) == old(self).zoom_s(
                point.x as int,
                point.y as int,
                out,
                old(settings).zoom as int,
                grid_width as int,
                grid_height as int,
            ),
            final(self).wf(),
            final(settings).zoom == old(settings).zoom,
            final(settings).max_iterations as int == crate::settings::adjust_iterations_s(
                old(settings).max_iterations as int,
                out,
            ),
            final(settings).wf(),
    {
        let w = self.width();
        let h = self.height();
        let z = settings.zoom;
        settings.adjust_iterations(out);
        proof {
            lemma_mul_nonnegative(point.x as int, w as int);
            lemma_mul_nonnegative(point.y as int, h as int);
            assert((point.x as int) * (w as int) <= 4096 * 0x6000_0000_0000
                && (point.x as int) * (w as int) < (grid_width as int) * (w as int))
                by (nonlinear_arith)
                requires
                    0 <= (point.x as int) < grid_width as int,
                    grid_width as int <= 4096,
                    0 < (w as int) <= 0x6000_0000_0000,
            ;
            lemma_multiply_divide_lt((point.x as int) * (w as int), grid_width as int, w as int);
            lemma_div_pos_is_pos((point.x as int) * (w as int), grid_width as int);
            assert((point.y as int) * (h as int) <= 4096 * 0x6000_0000_0000
                && (point.y as int) * (h as int) < (grid_height as int) * (h as int))
                by (nonlinear_arith)
                requires
                    0 <= (point.y as int) < grid_height as int,
                    grid_height as int <= 4096,
                    0 < (h as int) <= 0x6000_0000_0000,
            ;
            lemma_multiply_divide_lt((point.y as int) * (h as int), grid_height as int, h as int);
            lemma_div_pos_is_pos((point.y as int) * (h as int), grid_height as int);
        }
        let dx = ((point.x as u64) * (w as u64)) / (grid_width as u64);
        let dy = ((point.y as u64) * (h as u64)) / (grid_height as u64);
        let mid_x = self.top_left.re + (dx as i64);
        let mid_y = self.top_left.im + (dy as i64);
        let hx: i64;
        let hy: i64;
        if out {
            let wu = w as u64;
            let hu = h as u64;
            let zu = z as u64;
            proof {
                assert(wu * zu <= 0x180_0000_0000_0000) by (nonlinear_arith)
                    requires
                        wu <= 0x6000_0000_0000,
                        zu <= 1024,
                ;
                assert(hu * zu <= 0x180_0000_0000_0000) by (nonlinear_arith)
                    requires
                        hu <= 0x6000_0000_0000,
                        zu <= 1024,
                ;
            }
            hx = ((wu * zu) / 2) as i64;
            hy = ((hu * zu) / 2) as i64;
        } else {
            let qx = (w as u64) / (2 * (z as u64));
            let qy = (h as u64) / (2 * (z as u64));
            hx = if qx < 1 {
                1
            } else {
                qx as i64
            };
            hy = if qy < 1 {
                1
            } else {
                qy as i64
            };
        }
        let tlx = mid_x - hx;
        let tly = mid_y - hy;
        let brx = mid_x + hx;
        let bry = mid_y + hy;
        if -COORD_BOUND <= tlx && brx <= COORD_BOUND && -COORD_BOUND <= tly && bry <= COORD_BOUND
            && tlx < brx && tly < bry {
            self.top_left = Complex { re: tlx, im: tly };
            self.bottom_right = Complex { re: brx, im: bry };
        }
    }

    /// The real-axis movement of a pan step: one twentieth of the width,
    /// signed by direction.
    pub open spec fn pan_delta_re_s(self, direction: Key) -> int {
        let d = self.width_s() / (PAN_DENOMINATOR as int);
        match direction {
            Key::Left => -d,
            Key::Right => d,
            Key::Up => 0int,
            Key::Down => 0int,
        }
    }

    /// The imaginary-axis movement of a pan step.
    pub open spec fn pan_delta_im_s(self, direction: Key) -> int {
        let d = self.width_s() / (PAN_DENOMINATOR as int);
        match direction {
            Key::Up => -d,
            Key::Down => d,
            Key::Left => 0int,
            Key::Right => 0int,
        }
    }

    /// Where a pan step would put the rectangle: both corners moved by
    /// the same delta, so the extents are unchanged.
    pub open spec fn shift_target_s(self, direction: Key) -> PlotRange {
        let dre = self.pan_delta_re_s(direction);
        let dim = self.pan_delta_im_s(direction);
        PlotRange {
            top_left: Complex {
                re: (self.top_left.re + dre) as i64,
                im: (self.top_left.im + dim) as i64,
            },
            bottom_right: Complex {
                re: (self.bottom_right.re + dre) as i64,
                im: (self.bottom_right.im + dim) as i64,
            },
        }
    }

    /// The rectangle panned one step; a step that would leave the
    /// supported range leaves the rectangle unchanged.
    pub open spec fn shift_s(self, direction: Key) -> PlotRange {
        let t = self.shift_target_s(direction);
        if t.wf() {
            t
        } else {
            self
        }
    }

    /// Executable pan step; see `shift_s`.
    pub fn shift(&mut self, direction: Key)
        requires
            old(self).wf(),
        ensures
            *final(self) == old(self).shift_s(direction),
            final(self).wf(),
    {
        let w = self.width();
        proof {
            lemma_div_pos_is_pos(w as int, PAN_DENOMINATOR as int);
        }
        let d = ((w as u64) / PAN_DENOMINATOR) as i64;
        let delta: (i64, i64) = match direction {
            Key::Left => (-d, 0),
            Key::Right => (d, 0),
            Key::Up => (0, -d),
            Key::Down => (0, d),
        };
        let tlx = self.top_left.re + delta.0;
        let tly = self.top_left.im + delta.1;
        let brx = self.bottom_right.re + delta.0;
        let bry = self.bottom_right.im + delta.1;
        if -COORD_BOUND <= tlx && brx <= COORD_BOUND && -COORD_BOUND <= tly && bry <= COORD_BOUND {
            self.top_left = Complex { re: tlx, im: tly };
            self.bottom_right = Complex { re: brx, im: bry };
        }
    }
}

} // verus!
