//! Complex points with fixed-point components.

use vstd::prelude::*;

verus! {

use vstd::math::abs;
use crate::fixed::{fp_mul, norm2s};

/// Largest component magnitude the engine works with: 3 * 2^44 fixed-point
/// units, i.e. real values up to 12288.0.  Every viewport coordinate and
/// every point handed to the evaluator stays within this range.
pub const COORD_BOUND: i64 = 0x3000_0000_0000;

/// A point of the complex plane.  Each component is a fixed-point value
/// with 32 fractional bits.
#[derive(Clone, Copy, Debug, PartialEq, Eq, Structural)]
pub struct Complex {
    pub re: i64,
    pub im: i64,
}

impl Complex {
    /// Both components lie within the engine's working range.
    pub open spec fn in_bounds(self) -> bool {
        abs(self.re as int) <= COORD_BOUND as int && abs(self.im as int) <= COORD_BOUND as int
    }

    /// The squared magnitude, at doubled fixed-point scale.
    pub open spec fn norm2_s(self) -> int {
        norm2s(self.re as int, self.im as int)
    }

    pub fn new(re: i64, im: i64) -> (c: Complex)
        ensures
            c.re == re,
            c.im == im,
    {
        Complex { re, im }
    }
}

/// Real part of one iteration step `z * z + c`, with fixed-point products.
pub open spec fn step_re(zre: int, zim: int, cre: int) -> int {
    fp_mul(zre, zre) - fp_mul(zim, zim) + cre
}

/// Imaginary part of one iteration step `z * z + c`.
pub open spec fn step_im(zre: int, zim: int, cim: int) -> int {
    2 * fp_mul(zre, zim) + cim
}

} // verus!
