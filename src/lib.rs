//! A software triangle rasterizer on exact integer arithmetic.
//!
//! Vertices pass through 4×4 integer transforms in homogeneous coordinates
//! (`matrices`), are divided by w and set up as screen-space triangles, are
//! scan-converted into fragments with perspective-correct barycentric
//! weights (`raster`), and are composited into a framebuffer under a depth
//! buffer (`render`, `buffers`).
pub mod buffers;
pub mod color;
pub mod drawing;
pub mod fixed_point;
pub mod grid;
pub mod matrices;
pub mod raster;
pub mod render;
pub mod triangles;
pub mod vectors;
