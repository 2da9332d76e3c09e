//! A software rasterization pipeline on exact integer arithmetic: an 8-bit
//! color algebra, screen-space triangle scan conversion with depth
//! interpolation, a depth-tested framebuffer, and procedural planet shaders
//! that turn coherent-noise samples into colors.
//!
//! Fractional quantities (noise values, blend factors, light intensities,
//! sub-pixel coordinates) are fixed-point integers in thousandths; see
//! [`fixed`].

pub mod fixed;
pub mod color;
pub mod raster;
pub mod framebuffer;
pub mod shading;
pub mod material;
pub mod pipeline;
