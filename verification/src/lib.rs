//! A small software renderer on fixed-point arithmetic: a recursive ray tracer
//! for spheres and a scanline rasterizer for triangles, over one scene model.
pub mod arith;
pub mod camera;
pub mod canvas;
pub mod clip;
pub mod color;
pub mod fixed;
pub mod lights;
pub mod math;
pub mod matrix;
pub mod models;
pub mod raster;
pub mod ray;
pub mod scene;
pub mod shapes;
pub mod surface;
pub mod vector;
