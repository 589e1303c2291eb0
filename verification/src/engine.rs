//! The render engine: owns the viewport, the settings, the palette and
//! the pixel buffer, and re-renders the whole buffer after every
//! navigation command.

use vstd::prelude::*;

verus! {

use crate::complex::Complex;
use crate::evaluate::escape_time_s;
use crate::evaluate::escape_time;
use crate::palette::{Palette, color_s};
use crate::settings::{ApplicationSettings, adjust_iterations_s, base_settings};
use crate::viewport::{Key, PlotRange, Point, GRID_MAX};

/// Default grid width, in pixels.
pub const WIDTH: usize = 800;

/// Default grid height, in pixels.
pub const HEIGHT: usize = 600;

/// Baseline viewport corners: real axis -2.0 to 1.0, imaginary axis
/// -1.25 to 1.25 (growing downward in pixel space).
pub const BASE_TOP_LEFT_RE: i64 = -0x2_0000_0000;

pub const BASE_TOP_LEFT_IM: i64 = -0x1_4000_0000;

pub const BASE_BOTTOM_RIGHT_RE: i64 = 0x1_0000_0000;

pub const BASE_BOTTOM_RIGHT_IM: i64 = 0x1_4000_0000;

/// The rectangle a fresh engine shows, and that `reset` restores.
pub open spec fn base_plot_range() -> PlotRange {
    PlotRange {
        top_left: Complex { re: BASE_TOP_LEFT_RE, im: BASE_TOP_LEFT_IM },
        bottom_right: Complex { re: BASE_BOTTOM_RIGHT_RE, im: BASE_BOTTOM_RIGHT_IM },
    }
}

/// The colour that pixel `idx` of a `gw` by `gh` grid gets under viewport
/// `pr` and settings `s`.
pub open spec fn pixel_s(pr: PlotRange, s: ApplicationSettings, gw: int, gh: int, idx: int) -> int {
    color_s(escape_time_s(pr.point_at_s(idx, gw, gh), s.max_iterations as nat))
}

/// The engine.  All state lives here: one instance per session.
pub struct Application {
    plot_range: PlotRange,
    settings: ApplicationSettings,
    buffer: Vec<u32>,
    palette: Palette,
    width: usize,
    height: usize,
}

/// The engine shows the baseline viewport and settings with a fully
/// rendered buffer: exactly the state after `reset`, or after `update` on
/// a fresh instance.
pub open spec fn baseline_rendered(a: Application) -> bool {
    &&& a.plot_range_spec() == base_plot_range()
    &&& a.settings_spec() == base_settings()
    &&& a.rendered()
}

impl Application {
    /// The current viewport.
    pub closed spec fn plot_range_spec(self) -> PlotRange {
        self.plot_range
    }

    /// The current settings.
    pub closed spec fn settings_spec(self) -> ApplicationSettings {
        self.settings
    }

    /// The current pixel buffer contents.
    pub closed spec fn buffer_spec(self) -> Seq<u32> {
        self.buffer@
    }

    /// Grid width, fixed at construction.
    pub closed spec fn width_spec(self) -> usize {
        self.width
    }

    /// Grid height, fixed at construction.
    pub closed spec fn height_spec(self) -> usize {
        self.height
    }

    /// The palette table is well formed.
    pub closed spec fn palette_wf(self) -> bool {
        self.palette.wf()
    }

    /// The engine invariant: viewport, settings and palette are well
    /// formed, the grid is a supported size, and the buffer covers it.
    pub open spec fn wf(self) -> bool {
        &&& self.plot_range_spec().wf()
        &&& self.settings_spec().wf()
        &&& self.palette_wf()
        &&& 0 < self.width_spec() <= GRID_MAX
        &&& 0 < self.height_spec() <= GRID_MAX
        &&& self.buffer_spec().len() == self.width_spec() * self.height_spec()
    }

    /// Every buffer entry holds the colour of its pixel under the current
    /// viewport and settings.
    pub open spec fn rendered(self) -> bool {
        forall|idx: int|
            0 <= idx < self.buffer_spec().len() ==> self.buffer_spec()[idx] as int == pixel_s(
                self.plot_range_spec(),
                self.settings_spec(),
                self.width_spec() as int,
                self.height_spec() as int,
                idx,
            )
    }

    /// A fresh engine over an arbitrary supported grid size: baseline
    /// viewport and settings, zero-filled buffer.
    pub fn with_size(width: usize, height: usize) -> (a: Application)
        requires
            0 < width <= GRID_MAX,
            0 < height <= GRID_MAX,
        ensures
            a.wf(),
            a.width_spec() == width,
            a.height_spec() == height,
            a.plot_range_spec() == base_plot_range(),
            a.settings_spec() == base_settings(),
            forall|idx: int| 0 <= idx < a.buffer_spec().len() ==> a.buffer_spec()[idx] == 0,
    {
        proof {
            assert(width * height <= 4096 * 4096) by (nonlinear_arith)
                requires
                    0 < width <= 4096,
                    0 < height <= 4096,
            ;
        }
        let buffer: Vec<u32> = vec![0u32; width * height];
        let settings = ApplicationSettings::new();
        let plot_range = PlotRange {
            top_left: Complex { re: BASE_TOP_LEFT_RE, im: BASE_TOP_LEFT_IM },
            bottom_right: Complex { re: BASE_BOTTOM_RIGHT_RE, im: BASE_BOTTOM_RIGHT_IM },
        };
        let palette = Palette::new();
        Application { plot_range, settings, buffer, palette, width, height }
    }

    /// A fresh engine at the default grid size.
    pub fn new() -> (a: Application)
        ensures
            a.wf(),
            a.width_spec() == WIDTH,
            a.height_spec() == HEIGHT,
            a.plot_range_spec() == base_plot_range(),
            a.settings_spec() == base_settings(),
            forall|idx: int| 0 <= idx < a.buffer_spec().len() ==> a.buffer_spec()[idx] == 0,
    {
        Application::with_size(WIDTH, HEIGHT)
    }

    pub fn width(&self) -> (w: u32)
        requires
            self.wf(),
        ensures
            w as int == self.width_spec() as int,
    {
        self.width as u32
    }

    pub fn height(&self) -> (h: u32)
        requires
            self.wf(),
        ensures
            h as int == self.height_spec() as int,
    {
        self.height as u32
    }

    /// The current viewport, for callers that track navigation.
    pub fn plot_range(&self) -> (r: PlotRange)
        ensures
            r == self.plot_range_spec(),
    {
        self.plot_range
    }

    /// The current settings, for callers that track the budget.
    pub fn settings(&self) -> (s: ApplicationSettings)
        ensures
            s == self.settings_spec(),
    {
        self.settings
    }

    /// Read-only view of the pixel buffer, row-major, one packed colour
    /// per pixel.  Valid until the next mutating call.
    pub fn image_buffer(&self) -> (b: &Vec<u32>)
        ensures
            b@ == self.buffer_spec(),
    {
        &self.buffer
    }

    /// Recompute the whole buffer from the current viewport and settings:
    /// every pixel index is mapped to its complex point, evaluated, and
    /// coloured.
    pub fn update(&mut self)
        requires
            old(self).wf(),
        ensures
            final(self).wf(),
            final(self).plot_range_spec() == old(self).plot_range_spec(),
            final(self).settings_spec() == old(self).settings_spec(),
            final(self).width_spec() == old(self).width_spec(),
            final(self).height_spec() == old(self).height_spec(),
            final(self).rendered(),
    {
        proof {
            assert(self.width_spec() * self.height_spec() <= 4096 * 4096) by (nonlinear_arith)
                requires
                    0 < self.width_spec() <= 4096,
                    0 < self.height_spec() <= 4096,
            ;
        }
        let len = self.width * self.height;
        let mut buf: Vec<u32> = Vec::new();
        let mut idx: usize = 0;
        while idx < len
            invariant
                self.wf(),
                len == self.width_spec() * self.height_spec(),
                idx <= len,
                buf@.len() == idx,
                forall|t: int|
                    0 <= t < idx ==> buf@[t] as int == pixel_s(
                        self.plot_range_spec(),
                        self.settings_spec(),
                        self.width_spec() as int,
                        self.height_spec() as int,
                        t,
                    ),
            decreases len - idx,
        {
            let p = self.plot_range.index_to_point(idx, self.width, self.height);
            let e = escape_time(&p, self.settings.max_iterations);
            let c = self.palette.color_for(&e);
            buf.push(c);
            idx = idx + 1;
        }
        self.buffer = buf;
    }

    /// Restore the baseline viewport and settings, reallocate the buffer,
    /// and render.
    pub fn reset(&mut self)
        requires
            old(self).wf(),
        ensures
            final(self).wf(),
            final(self).width_spec() == old(self).width_spec(),
            final(self).height_spec() == old(self).height_spec(),
            baseline_rendered(*final(self)),
    {
        self.settings = ApplicationSettings::new();
        self.plot_range = PlotRange {
            top_left: Complex { re: BASE_TOP_LEFT_RE, im: BASE_TOP_LEFT_IM },
            bottom_right: Complex { re: BASE_BOTTOM_RIGHT_RE, im: BASE_BOTTOM_RIGHT_IM },
        };
        proof {
            assert(self.width_spec() * self.height_spec() <= 4096 * 4096) by (nonlinear_arith)
                requires
                    0 < self.width_spec() <= 4096,
                    0 < self.height_spec() <= 4096,
            ;
        }
        self.buffer = vec![0u32; self.width * self.height];
        self.update();
    }

    /// Zoom in or out, keeping the clicked pixel's coordinate at the
    /// centre, adjust the iteration budget, and render.
    pub fn zoom(&mut self, point: Point, out: bool)
        requires
            old(self).wf(),
            (point.x as int) < old(self).width_spec() as int,
            (point.y as int) < old(self).height_spec() as int,
        ensures
            final(self).wf(),
            final(self).width_spec() == old(self).width_spec(),
            final(self).height_spec() == old(self).height_spec(),
            final(self).plot_range_spec() == old(self).plot_range_spec().zoom_s(
                point.x as int,
                point.y as int,
                out,
                old(self).settings_spec().zoom as int,
                old(self).width_spec() as int,
                old(self).height_spec() as int,
            ),
            final(self).settings_spec().zoom == old(self).settings_spec().zoom,
            final(self).settings_spec().max_iterations as int == adjust_iterations_s(
                old(self).settings_spec().max_iterations as int,
                out,
            ),
            final(self).rendered(),
    {
        let w = self.width;
        let h = self.height;
        self.plot_range.zoom(point, out, &mut self.settings, w, h);
        self.update();
    }

    /// Pan one step in the given direction and render.
    pub fn shift(&mut self, direction: Key)
        requires
            old(self).wf(),
        ensures
            final(self).wf(),
            final(self).width_spec() == old(self).width_spec(),
            final(self).height_spec() == old(self).height_spec(),
            final(self).plot_range_spec() == old(self).plot_range_spec().shift_s(direction),
            final(self).settings_spec() == old(self).settings_spec(),
            final(self).rendered(),
    {
        self.plot_range.shift(direction);
        self.update();
    }
}

} // verus!
