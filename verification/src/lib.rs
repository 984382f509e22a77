//! Core of a bar-spectrum audio visualizer: framing of raw samples into
//! analysis windows, normalization of the resulting spectral matrix,
//! mirroring and spatial interpolation of bar rows, temporal interpolation
//! between analysis frames, and the frame clock that drives playback.
//!
//! Magnitudes are fixed-point numbers: a `u64` value `v` stands for the
//! real number `v / SCALE`. Raw audio samples are fixed-point `i64` values
//! on the same scale.

use vstd::prelude::*;

pub mod clock;
pub mod config;
pub mod fft;
pub mod interpolate;
pub mod normalize;
pub mod pipeline;

verus! {

/// Fixed-point unit: the magnitude `SCALE` stands for the real number 1.0.
pub const SCALE: u64 = 1_000_000;

/// Upper bound on every magnitude held in a spectral matrix
/// (1e6 in real units); keeps all fixed-point arithmetic in range.
pub const VAL_LIMIT: u64 = 1_000_000_000_000;

/// Upper bound on a rescaling factor (100.0 in real units).
pub const FACTOR_LIMIT: u64 = 100_000_000;

/// Fixed rate of the render loop, in frames per second.
pub const RENDERING_FPS: u32 = 60;

/// Fixed rate of the analysis pass, in analysis frames per second.
pub const FFT_FPS: u32 = 12;

} // verus!
