use vstd::prelude::*;

verus! {

/// An RGB colour, one byte per channel.
pub type Color = (u8, u8, u8);

/// A pixel position `(x, y)` on the framebuffer.
pub type PixelPosition = (u16, u16);

/// Number of sub-pixel steps per pixel in screen-space coordinates.
pub const SUBPIXEL: i32 = 256;

/// The texture coordinate that stands for 1.0.
pub const TEX_ONE: i32 = 65536;

/// Errors raised when an operation is asked to work outside its domain.
#[derive(Debug, Clone, Copy, PartialEq, Eq, Structural)]
pub enum RenderError {
    /// A pixel position lies outside the framebuffer.
    PixelOutOfBounds,
    /// A texture coordinate lies outside `[0, TEX_ONE]`.
    TexCoordOutOfRange,
    /// Image dimensions do not agree with the pixel data (or are zero).
    BadImageSize,
}

/// A screen-space vertex: `x` and `y` in units of `1 / SUBPIXEL` pixel,
/// `z` a depth value where greater means nearer.
#[derive(Debug, Clone, Copy, PartialEq, Eq, Structural)]
pub struct ScreenPos {
    pub x: i32,
    pub y: i32,
    pub z: i32,
}

/// A texture coordinate `(u, v)` in units of `1 / TEX_ONE`.
#[derive(Debug, Clone, Copy, PartialEq, Eq, Structural)]
pub struct TexCoord {
    pub u: i32,
    pub v: i32,
}

impl ScreenPos {
    pub fn new(x: i32, y: i32, z: i32) -> (r: ScreenPos)
        ensures
            r == (ScreenPos { x, y, z }),
    {
        ScreenPos { x, y, z }
    }
}

impl TexCoord {
    pub fn new(u: i32, v: i32) -> (r: TexCoord)
        ensures
            r == (TexCoord { u, v }),
    {
        TexCoord { u, v }
    }

    /// Whether both coordinates lie in `[0, TEX_ONE]`.
    pub fn is_in_range(&self) -> (r: bool)
        ensures
            r == (0 <= self.u <= TEX_ONE && 0 <= self.v <= TEX_ONE),
    {
        0 <= self.u && self.u <= TEX_ONE && 0 <= self.v && self.v <= TEX_ONE
    }
}

/// The packed 32-bit pixel word of a colour: blue in the low byte, then
/// green, then red.
pub open spec fn packed(c: Color) -> u32 {
    (c.0 as int * 65536 + c.1 as int * 256 + c.2 as int) as u32
}

/// Packs a colour as `B | (G << 8) | (R << 16)`.
pub fn color_to_u32(color: Color) -> (r: u32)
    ensures
        r == packed(color),
        r as int == color.0 as int * 65536 + color.1 as int * 256 + color.2 as int,
{
    let red = color.0 as u32;
    let green = color.1 as u32;
    let blue = color.2 as u32;
    let word = blue | (green << 8) | (red << 16);
    assert(word == red * 65536 + green * 256 + blue) by (bit_vector)
        requires
            red < 256,
            green < 256,
            blue < 256,
            word == blue | (green << 8) | (red << 16),
    ;
    word
}

} // verus!
