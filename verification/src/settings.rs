//! Render settings: the multiplicative zoom factor and the iteration
//! budget.  Zooming in raises the budget by a fixed step, zooming out
//! lowers it; the budget is clamped so that it always stays between
//! `ITER_MIN` and `ITER_MAX`, and the zoom factor is never changed by
//! navigation.

use vstd::prelude::*;

verus! {

/// Baseline zoom factor: each zoom step halves or doubles the viewport.
pub const BASE_ZOOM: u32 = 2;

/// Baseline iteration budget.
pub const BASE_MAX_ITERATIONS: u32 = 512;

/// How much one zoom step changes the iteration budget.
pub const ITER_STEP: u32 = 5;

/// The iteration budget never drops below one step.
pub const ITER_MIN: u32 = 1;

/// The iteration budget never grows beyond this ceiling.
pub const ITER_MAX: u32 = 1000000;

/// Largest accepted zoom factor.
pub const ZOOM_MAX: u32 = 1024;

#[derive(Clone, Copy, Debug, PartialEq, Eq, Structural)]
pub struct ApplicationSettings {
    pub zoom: u32,
    pub max_iterations: u32,
}

/// The iteration budget after one zoom step, clamped to its range.
pub open spec fn adjust_iterations_s(m: int, out: bool) -> int {
    if out {
        if m - ITER_STEP >= ITER_MIN {
            m - ITER_STEP
        } else {
            ITER_MIN as int
        }
    } else {
        if m + ITER_STEP <= ITER_MAX {
            m + ITER_STEP
        } else {
            ITER_MAX as int
        }
    }
}

/// The settings a fresh engine starts from, and that `reset` restores.
pub open spec fn base_settings() -> ApplicationSettings {
    ApplicationSettings { zoom: BASE_ZOOM, max_iterations: BASE_MAX_ITERATIONS }
}

impl ApplicationSettings {
    /// The zoom factor is a genuine magnification and the budget lies in
    /// its clamped range.
    pub open spec fn wf(self) -> bool {
        2 <= self.zoom <= ZOOM_MAX && ITER_MIN <= self.max_iterations <= ITER_MAX
    }

    pub fn new() -> (s: ApplicationSettings)
        ensures
            s == base_settings(),
            s.wf(),
    {
        ApplicationSettings { zoom: BASE_ZOOM, max_iterations: BASE_MAX_ITERATIONS }
    }

    /// Apply one zoom step to the iteration budget; the zoom factor is
    /// untouched.
    pub fn adjust_iterations(&mut self, out: bool)
        requires
            old(self).wf(),
    ensures
            final(self).zoom == old(self).zoom,
            final(self).max_iterations as int == adjust_iterations_s(
                old(self).max_iterations as int,
                out,
            ),
            final(self).wf(),
    {
        if out {
            if self.max_iterations >= ITER_MIN + ITER_STEP {
                self.max_iterations = self.max_iterations - ITER_STEP;
            } else {
                self.max_iterations = ITER_MIN;
            }
        } else {
            if self.max_iterations <= ITER_MAX - ITER_STEP {
                self.max_iterations = self.max_iterations + ITER_STEP;
            } else {
                self.max_iterations = ITER_MAX;
            }
        }
    }
}

} // verus!
