//! A box that bounces inside a fixed canvas, and the software rasterizer that
//! paints it into an RGBA frame buffer.

pub mod driver;
pub mod world;
