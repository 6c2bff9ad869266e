//! A ray-casting renderer over fixed-point arithmetic.
//!
//! The library renders a static scene of spheres and lights into a flat
//! buffer of RGBA colors.  All geometry is carried in fixed-point integers:
//! one world unit is `fixed::SCALE` steps, so every coordinate, radius,
//! intensity and ray parameter is an exactly specified integer and every
//! function's result is pinned down by its contract.

pub mod camera;
pub mod color;
pub mod driver;
pub mod fixed;
pub mod light;
pub mod object;
pub mod render;
pub mod shading;
pub mod sphere;
pub mod tracer;
pub mod vec3;
