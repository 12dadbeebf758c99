//! The rules of a ray tracer for scenes of spheres, proved.
//!
//! A picture is made by following rays from a camera into a scene of spheres
//! and lights. The sums and products of that are single-precision arithmetic
//! and belong to the host. What is left is decided here and proved: how
//! single-precision numbers compare and become bytes, which crossing of a ray
//! with a sphere counts as the hit, which object of a scene is hit first,
//! which lights reach a point, how far a ray is followed, and how the colours
//! of the pixels are laid out as bytes.

pub mod colors;
pub mod intersections;
pub mod lights;
pub mod pixels;
pub mod ray;
pub mod scalar;
pub mod scene;
pub mod shading;
pub mod shapes;
pub mod utils;
pub mod vector;
