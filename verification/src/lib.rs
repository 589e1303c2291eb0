//! A Mandelbrot-set render engine over fixed-point arithmetic.
//!
//! The engine computes, for every pixel of a raster grid, how quickly the
//! corresponding point of the complex plane diverges under the iteration
//! `z <- z * z + c`, and maps the result through a fixed colour palette.
//! A viewport owns the visible rectangle of the plane and supports zoom and
//! pan navigation.  All coordinates are fixed-point numbers with 32
//! fractional bits, so every operation is exact integer arithmetic and can
//! be verified; there is no floating point anywhere in the library.

pub mod complex;
pub mod engine;
pub mod evaluate;
pub mod fixed;
pub mod laws;
pub mod log2;
pub mod palette;
pub mod settings;
pub mod viewport;
