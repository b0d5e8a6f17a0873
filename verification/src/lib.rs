//! Core of a voxel scene renderer: fixed-point 3-D vector and matrix math,
//! a first-person camera state machine, and a procedural cube-grid mesh
//! generator.  All quantities are carried as 64-bit fixed-point numbers
//! (`fixed::SCALE` units per 1.0), so that every operation has an exact
//! arithmetic meaning; the thin GPU layer converts them to `f32` on upload.

pub mod fixed;
pub mod math;
pub mod trig;
pub mod camera;
pub mod chunk;
pub mod texture;
