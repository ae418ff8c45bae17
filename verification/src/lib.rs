//! A software 3D rasterizer core: fixed-point vector and matrix algebra,
//! a mesh model with indexed triangular faces, a per-frame transform /
//! projection / culling / depth-sort pipeline, and an integer scanline
//! rasterizer writing into an RGB24 pixel buffer.
//!
//! All geometry is carried in 16.16 fixed-point (an `i64` holding the real
//! value times 65536), so every arithmetic step has an exact contract.
//! Window creation, event delivery and buffer presentation are left to the
//! surrounding application.

pub mod color;
pub mod display;
pub mod fixed;
pub mod matrix;
pub mod mesh;
pub mod renderer;
pub mod triangle;
pub mod vector;
