//! An offline ray tracer: a camera casts rays into a scene of spheres and
//! triangles, and a recursive Monte-Carlo sampler turns the intersections it
//! finds into pixel colors.
//!
//! All geometry is carried in fixed-point arithmetic: a scalar is an `i64`
//! holding the real value times [`fixed::SCALE`].  Image encoding, progress
//! reporting and the per-pixel driver loop are left to the embedding
//! application; this crate computes one pixel at a time.

pub mod algorithms;
pub mod camera;
pub mod fixed;
pub mod hittable;
pub mod material;
pub mod math;
pub mod ray;
pub mod renderer;
pub mod rng;
pub mod sampler;
