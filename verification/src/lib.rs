//! A Monte Carlo path tracer over fixed-point arithmetic.
//!
//! Scene geometry, materials and colors are represented in signed 16.16
//! fixed point: an `i64` holds the value times `fixed::SCALE` (65536).
//! Arithmetic saturates at the `i64` range, which stands in for the
//! infinities that a floating-point formulation would produce, and every
//! operation's result is pinned down exactly by its contract.

pub mod camera;
pub mod fixed;
pub mod integrator;
pub mod material;
pub mod model;
pub mod ray;
pub mod render;
pub mod rng;
pub mod vec3;
