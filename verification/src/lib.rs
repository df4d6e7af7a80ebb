//! A ray-tracing renderer core: color model, bitmap encoding, framebuffer
//! rasterization, and cube-face texture lookup, with verified contracts.

pub mod bmp;
pub mod color;
pub mod framebuffer;
pub mod render;
pub mod texture;
