//! A minimal software 3D renderer: a triangle mesh and a camera pose go in,
//! a raster image with per-pixel depth testing comes out.
//!
//! All coordinates and depths are 32-bit IEEE-754 values, held throughout this
//! crate as their raw bit patterns (`u32`). The crate never performs
//! floating-point arithmetic itself: the numeric kernels (signed areas,
//! perspective projection, trigonometry) live with the driver, which hands
//! their results in as plain bit patterns. What is verified here is everything
//! else: the mesh model and its fan triangulation, the geometry-format token
//! rules, color packing, the depth-buffer discipline of the rasterizer, and
//! the exact-arithmetic laws that the numeric kernels are meant to satisfy.

pub mod exact;
pub mod lin;
pub mod model;
pub mod obj;
pub mod renderer;
