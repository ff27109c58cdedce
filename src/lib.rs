//! A small software rasterizer: a colour and depth framebuffer, Bresenham
//! lines, barycentric triangle filling with a z-buffer test, and
//! nearest-neighbour texture sampling.
//!
//! Screen-space geometry is given in fixed point (see [`SUBPIXEL`]) and
//! texture coordinates in units of [`TEX_ONE`], so every decision the
//! rasterizer takes is exact integer arithmetic.

pub mod barycentric;
pub mod framebuffer;
pub mod line;
pub mod rasterizer;
pub mod texture;
pub mod triangle;
pub mod types;

pub use barycentric::{barycentric, interpolate, Barycentric, DEGENERATE_LIMIT};
pub use framebuffer::Framebuffer;
pub use rasterizer::{DrawOrigin, Rasterizer};
pub use texture::Texture;
pub use types::{
    color_to_u32, Color, PixelPosition, RenderError, ScreenPos, TexCoord, SUBPIXEL, TEX_ONE,
};
