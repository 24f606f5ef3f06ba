//! The integer side of a small path tracer: random index choice, the Perlin
//! lattice tables, ray and image containers, and the PPM text encoding.
//! Everything that computes with floating point lives in the application.

pub mod helper;
pub mod hittable_list;
pub mod perlin;
pub mod color;
pub mod bvh;
pub mod camera;
pub mod image;
pub mod material;
pub mod pdf;
pub mod ray;
pub mod texture;
