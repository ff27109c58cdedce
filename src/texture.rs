use vstd::prelude::*;

use crate::framebuffer::lemma_index_in_range;
use crate::types::{Color, RenderError, TexCoord, TEX_ONE};

verus! {

/// A decoded RGBA image, four bytes per pixel, row-major with the first
/// row at the top.
pub struct Texture {
    width: u32,
    height: u32,
    data: Vec<u8>,
}

/// Whether a texture coordinate lies in `[0, TEX_ONE]` on both axes.
pub open spec fn tex_coord_in_range(uv: TexCoord) -> bool {
    0 <= uv.u <= TEX_ONE && 0 <= uv.v <= TEX_ONE
}

/// Column sampled for `u` on an image `width` pixels wide:
/// `floor(width * u)`, kept on the last column when `u` is one.
pub open spec fn texel_column(width: int, u: int) -> int {
    let x = (width * u) / (TEX_ONE as int);
    if x < width {
        x
    } else {
        width - 1
    }
}

/// Row sampled for `v` on an image `height` pixels high:
/// `floor(height - height * v)`, so that `v = 0` is the bottom row, kept on
/// that row when `v` is zero.
pub open spec fn texel_row(height: int, v: int) -> int {
    let y = (height * (TEX_ONE - v)) / (TEX_ONE as int);
    if y < height {
        y
    } else {
        height - 1
    }
}

impl Texture {
    pub closed spec fn spec_width(&self) -> u32 {
        self.width
    }

    pub closed spec fn spec_height(&self) -> u32 {
        self.height
    }

    /// The RGBA bytes of the image.
    pub closed spec fn bytes(&self) -> Seq<u8> {
        self.data@
    }

    /// The image is not empty and holds four bytes per pixel.
    pub open spec fn wf(&self) -> bool {
        &&& self.spec_width() >= 1
        &&& self.spec_height() >= 1
        &&& self.bytes().len() == 4 * (self.spec_width() as int * self.spec_height() as int)
    }

    /// The RGB part of the pixel at column `x`, row `y` (row 0 at the top).
    pub open spec fn texel(&self, x: int, y: int) -> Color {
        let i = 4 * (x + y * self.spec_width());
        (self.bytes()[i], self.bytes()[i + 1], self.bytes()[i + 2])
    }

    /// The nearest-neighbour sample at `uv`.
    pub open spec fn sample(&self, uv: TexCoord) -> Color {
        self.texel(
            texel_column(self.spec_width() as int, uv.u as int),
            texel_row(self.spec_height() as int, uv.v as int),
        )
    }

    /// Builds a texture from `width` x `height` RGBA pixels. The data must
    /// hold exactly four bytes per pixel and the image must not be empty.
    pub fn from_rgba(width: u32, height: u32, data: Vec<u8>) -> (r: Result<Texture, RenderError>)
        ensures
            (width >= 1 && height >= 1 && data@.len() == 4 * (width as int * height as int))
                <==> r is Ok,
            r is Ok ==> {
                let t = r->Ok_0;
                &&& t.wf()
                &&& t.spec_width() == width
                &&& t.spec_height() == height
                &&& t.bytes() == data@
            },
            r is Err ==> r == Err::<Texture, RenderError>(RenderError::BadImageSize),
    {
        assert((width as u128) * (height as u128) <= 0xffff_ffff_ffff_ffff) by (nonlinear_arith)
            requires
                width <= 0xffff_ffff,
                height <= 0xffff_ffff,
        ;
        let expected = (width as u128) * (height as u128) * 4;
        if width == 0 || height == 0 || data.len() as u128 != expected {
            return Err(RenderError::BadImageSize);
        }
        Ok(Texture { width, height, data })
    }

    pub fn width(&self) -> (r: u32)
        ensures
            r == self.spec_width(),
    {
        self.width
    }

    pub fn height(&self) -> (r: u32)
        ensures
            r == self.spec_height(),
    {
        self.height
    }

    /// Nearest-neighbour sample at `uv`: column `floor(width * u)`, row
    /// `floor(height - height * v)`, each kept on the image at the edge.
    /// A coordinate outside `[0, TEX_ONE]` is an error.
    pub fn color(&self, tex_coord: TexCoord) -> (r: Result<Color, RenderError>)
        requires
            self.wf(),
        ensures
            tex_coord_in_range(tex_coord) ==> r == Ok::<Color, RenderError>(self.sample(tex_coord)),
            !tex_coord_in_range(tex_coord) ==> r == Err::<Color, RenderError>(
                RenderError::TexCoordOutOfRange,
            ),
    {
        let u = tex_coord.u;
        let v = tex_coord.v;
        if u < 0 || u > TEX_ONE || v < 0 || v > TEX_ONE {
            return Err(RenderError::TexCoordOutOfRange);
        }
        let width = self.width as u64;
        let height = self.height as u64;
        assert(width * (u as u64) <= 0xffff_ffff * 65536) by (nonlinear_arith)
            requires
                width <= 0xffff_ffff,
                0 <= u <= 65536,
        ;
        assert(height * ((TEX_ONE - v) as u64) <= 0xffff_ffff * 65536) by (nonlinear_arith)
            requires
                height <= 0xffff_ffff,
                0 <= TEX_ONE - v <= 65536,
        ;
        let mut x = width * (u as u64) / (TEX_ONE as u64);
        if x >= width {
            x = width - 1;
        }
        let mut y = height * ((TEX_ONE - v) as u64) / (TEX_ONE as u64);
        if y >= height {
            y = height - 1;
        }
        proof {
            lemma_index_in_range(x as int, y as int, width as int, height as int);
            assert(0 <= y * width) by (nonlinear_arith)
                requires
                    0 <= y,
                    0 <= width,
            ;
            assert(width * height <= 0xffff_ffff * 0xffff_ffff) by (nonlinear_arith)
                requires
                    width <= 0xffff_ffff,
                    height <= 0xffff_ffff,
            ;
            assert(self.data@.len() == 4 * (width * height));
            assert(4 * (x + y * width) + 2 < self.data@.len());
        }
        let pixel = x + y * width;
        let len = self.data.len();
        assert(pixel * 4 < len);
        let i = (pixel as usize) * 4;
        assert(x == texel_column(width as int, u as int));
        assert(y == texel_row(height as int, v as int));
        Ok((self.data[i], self.data[i + 1], self.data[i + 2]))
    }
}

/// Sampling at `(0, 0)` gives the bottom-left pixel of the image and
/// sampling at `(TEX_ONE, TEX_ONE)` the top-right one.
pub proof fn lemma_texture_corners(t: Texture)
    requires
        t.wf(),
    ensures
        t.sample(TexCoord { u: 0, v: 0 }) == t.texel(0, t.spec_height() - 1),
        t.sample(TexCoord { u: TEX_ONE, v: TEX_ONE }) == t.texel(t.spec_width() - 1, 0),
{
    let w = t.spec_width() as int;
    let h = t.spec_height() as int;
    vstd::arithmetic::div_mod::lemma_div_by_multiple(w, TEX_ONE as int);
    vstd::arithmetic::div_mod::lemma_div_by_multiple(h, TEX_ONE as int);
    assert(texel_column(w, 0) == 0);
    assert(texel_row(h, 0) == h - 1);
    assert(texel_column(w, TEX_ONE as int) == w - 1);
    assert(texel_row(h, TEX_ONE as int) == 0);
}

} // verus!
