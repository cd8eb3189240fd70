//! A path tracer over a fixed-point scalar type: sphere geometry,
//! material scattering, a recursive bounce integrator, and a camera
//! with a thin-lens depth-of-field model.

pub mod cameras;
pub mod colors;
pub mod materials;
pub mod primitives;
pub mod rays;
pub mod render;
pub mod rng;
pub mod scalars;
pub mod util;
pub mod vectors;

use vstd::prelude::*;

verus! {

/// Why a configuration was rejected at construction time: rendering
/// itself has no recoverable failures, so every error names an invalid
/// or degenerate configuration value, detected before any pixel is
/// computed.
#[derive(Clone, Copy, PartialEq, Eq, Structural, Debug)]
pub enum RenderError {
    /// The vertical field of view must lie strictly between 0 and 180
    /// degrees.
    InvalidFieldOfView,
    /// The aspect ratio must be positive.
    InvalidAspectRatio,
    /// The aperture must be nonnegative.
    InvalidAperture,
    /// The focus distance must be positive.
    InvalidFocusDistance,
    /// The field of view produced an empty viewport.
    DegenerateViewport,
    /// The look-from, look-at and up vectors do not span a camera frame.
    DegenerateOrientation,
    /// The image width must be positive.
    InvalidWidth,
    /// The image height must be positive.
    InvalidHeight,
    /// The sample count per pixel must be positive.
    InvalidSamples,
    /// The bounce depth must be positive.
    InvalidDepth,
    /// The output dynamic range must offer at least two levels.
    InvalidDynRange,
}

} // verus!
