//! A small ray-tracing core: tuples, matrices, transforms, rays, spheres,
//! intersections and Phong lighting, with a pixel canvas that encodes as PPM.
//!
//! All arithmetic is on fixed-point scalars (`fixed::Fx`, 32 fractional
//! bits) that round to nearest and saturate, so every operation is total
//! and its result is stated exactly by the spec functions beside it.

pub mod fixed;
pub mod point_vector;
pub mod color;
pub mod matrix;
pub mod transformations;
pub mod ray;
pub mod point_light;
pub mod material;
pub mod shapes;
pub mod interactions;
pub mod canvas;
pub mod projectile;
