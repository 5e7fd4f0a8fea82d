//! Decision logic of a small recursive path tracer.
//!
//! The numeric work of the renderer (vector algebra, the sphere quadratic,
//! colour accumulation) happens on `f32`. What is decided from those numbers
//! lives here, on exact integer models: the order of ray parameters, which
//! root of a sphere is taken, which object of a scene is nearest, how a hit
//! is oriented, whether a material scatters, how the radiance recursion steps,
//! and in which order pixels are emitted.

pub mod order;
pub mod hit;
pub mod material;
pub mod integrator;
pub mod raster;
pub mod tone;
