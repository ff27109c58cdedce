use vstd::prelude::*;

use crate::types::{color_to_u32, packed, Color, PixelPosition, RenderError};

verus! {

/// A colour buffer of packed pixel words and a parallel depth buffer, both
/// row-major with the origin at the top left.
pub struct Framebuffer {
    color_buffer: Vec<u32>,
    depth_buffer: Vec<i32>,
    width: u32,
    height: u32,
}

impl Framebuffer {
    /// The packed colour of every pixel, row by row.
    pub closed spec fn colors(&self) -> Seq<u32> {
        self.color_buffer@
    }

    /// The depth of every pixel, row by row.
    pub closed spec fn depths(&self) -> Seq<i32> {
        self.depth_buffer@
    }

    pub closed spec fn spec_width(&self) -> u32 {
        self.width
    }

    pub closed spec fn spec_height(&self) -> u32 {
        self.height
    }

    /// Both buffers hold exactly one entry per pixel, and every index fits
    /// in 32 bits.
    pub open spec fn wf(&self) -> bool {
        &&& self.spec_width() as int * self.spec_height() as int <= u32::MAX
        &&& self.colors().len() == self.spec_width() as int * self.spec_height() as int
        &&& self.depths().len() == self.spec_width() as int * self.spec_height() as int
    }

    pub open spec fn in_bounds(&self, pos: PixelPosition) -> bool {
        pos.0 < self.spec_width() && pos.1 < self.spec_height()
    }

    /// Index of the pixel `(x, y)` in either buffer.
    pub open spec fn index_of(&self, x: int, y: int) -> int {
        x + y * self.spec_width()
    }

    /// Creates a `width` x `height` framebuffer, colour and depth all zero.
    pub fn new(width: u32, height: u32) -> (r: Self)
        requires
            width as int * height as int <= u32::MAX,
        ensures
            r.wf(),
            r.spec_width() == width,
            r.spec_height() == height,
            forall|i: int| 0 <= i < r.colors().len() ==> r.colors()[i] == 0,
            forall|i: int| 0 <= i < r.depths().len() ==> r.depths()[i] == 0,
    {
        let buffer_size = width * height;
        let mut color_buffer: Vec<u32> = Vec::new();
        let mut depth_buffer: Vec<i32> = Vec::new();
        while color_buffer.len() < buffer_size as usize
            invariant
                color_buffer.len() == depth_buffer.len(),
                color_buffer.len() <= buffer_size,
                forall|i: int| 0 <= i < color_buffer.len() ==> color_buffer@[i] == 0,
                forall|i: int| 0 <= i < depth_buffer.len() ==> depth_buffer@[i] == 0,
            decreases buffer_size - color_buffer.len(),
        {
            color_buffer.push(0);
            depth_buffer.push(0);
        }
        Self { color_buffer, depth_buffer, width, height }
    }

    /// Resizes the framebuffer if the width and height do not match. When
    /// they do, nothing changes; otherwise entries below the new size keep
    /// their value and new entries are zero.
    pub fn resize(&mut self, width: u32, height: u32)
        requires
            old(self).wf(),
            width as int * height as int <= u32::MAX,
        ensures
            final(self).wf(),
            final(self).spec_width() == width,
            final(self).spec_height() == height,
            old(self).spec_width() == width && old(self).spec_height() == height ==> *final(self)
                == *old(self),
            forall|i: int|
                0 <= i < final(self).colors().len() ==> #[trigger] final(self).colors()[i] == if i
                    < old(self).colors().len() {
                    old(self).colors()[i]
                } else {
                    0
                },
            forall|i: int|
                0 <= i < final(self).depths().len() ==> #[trigger] final(self).depths()[i] == if i
                    < old(self).depths().len() {
                    old(self).depths()[i]
                } else {
                    0
                },
    {
        if self.width != width || self.height != height {
            self.width = width;
            self.height = height;
            let buffer_size = (width * height) as usize;
            self.color_buffer.truncate(buffer_size);
            self.depth_buffer.truncate(buffer_size);
            let ghost kept_colors = self.color_buffer@;
            let ghost kept_depths = self.depth_buffer@;
            while self.color_buffer.len() < buffer_size
                invariant
                    self.width == width,
                    self.height == height,
                    buffer_size == width * height,
                    width as int * height as int <= u32::MAX,
                    self.color_buffer.len() == self.depth_buffer.len(),
                    self.color_buffer.len() <= buffer_size,
                    kept_colors.len() == kept_depths.len(),
                    kept_colors.len() <= self.color_buffer.len(),
                    forall|i: int|
                        0 <= i < self.color_buffer.len() ==> self.color_buffer@[i] == if i
                            < kept_colors.len() {
                            kept_colors[i]
                        } else {
                            0
                        },
                    forall|i: int|
                        0 <= i < self.depth_buffer.len() ==> self.depth_buffer@[i] == if i
                            < kept_depths.len() {
                            kept_depths[i]
                        } else {
                            0
                        },
                decreases buffer_size - self.color_buffer.len(),
            {
                self.color_buffer.push(0);
                self.depth_buffer.push(0);
            }
        }
    }

    /// Sets the pixel at `pos` to the packed form of an RGB colour.
    pub fn set_color_rgb(&mut self, pos: PixelPosition, color: Color) -> (r: Result<(), RenderError>)
        requires
            old(self).wf(),
        ensures
            final(self).wf(),
            final(self).spec_width() == old(self).spec_width(),
            final(self).spec_height() == old(self).spec_height(),
            final(self).depths() == old(self).depths(),
            old(self).in_bounds(pos) ==> r is Ok && final(self).colors() == old(self).colors().update(
                old(self).index_of(pos.0 as int, pos.1 as int),
                packed(color),
            ),
            !old(self).in_bounds(pos) ==> r == Err::<(), RenderError>(RenderError::PixelOutOfBounds)
                && *final(self) == *old(self),
    {
        let color = color_to_u32(color);
        self.set_color(pos, color)
    }

    /// Fills the colour buffer with the packed form of an RGB colour.
    pub fn set_color_rgb_all(&mut self, color: Color)
        requires
            old(self).wf(),
        ensures
            final(self).wf(),
            final(self).spec_width() == old(self).spec_width(),
            final(self).spec_height() == old(self).spec_height(),
            final(self).depths() == old(self).depths(),
            final(self).colors() == Seq::new(old(self).colors().len(), |i: int| packed(color)),
    {
        let color = color_to_u32(color);
        self.set_color_all(color);
    }

    /// Fills the colour buffer with a packed pixel word.
    pub fn set_color_all(&mut self, color: u32)
        requires
            old(self).wf(),
        ensures
            final(self).wf(),
            final(self).spec_width() == old(self).spec_width(),
            final(self).spec_height() == old(self).spec_height(),
            final(self).depths() == old(self).depths(),
            final(self).colors() == Seq::new(old(self).colors().len(), |i: int| color),
    {
        let n = self.color_buffer.len();
        let mut i: usize = 0;
        while i < n
            invariant
                n == self.color_buffer.len(),
                i <= n,
                self.depth_buffer == old(self).depth_buffer,
                self.width == old(self).width,
                self.height == old(self).height,
                n == old(self).color_buffer.len(),
                forall|j: int| 0 <= j < i ==> self.color_buffer@[j] == color,
            decreases n - i,
        {
            self.color_buffer.set(i, color);
            i = i + 1;
        }
        assert(self.colors() =~= Seq::new(old(self).colors().len(), |i: int| color));
    }

    /// Fills the depth buffer with `depth`.
    pub fn set_depth_all(&mut self, depth: i32)
        requires
            old(self).wf(),
        ensures
            final(self).wf(),
            final(self).spec_width() == old(self).spec_width(),
            final(self).spec_height() == old(self).spec_height(),
            final(self).colors() == old(self).colors(),
            final(self).depths() == Seq::new(old(self).depths().len(), |i: int| depth),
    {
        let n = self.depth_buffer.len();
        let mut i: usize = 0;
        while i < n
            invariant
                n == self.depth_buffer.len(),
                i <= n,
                self.color_buffer == old(self).color_buffer,
                self.width == old(self).width,
                self.height == old(self).height,
                n == old(self).depth_buffer.len(),
                forall|j: int| 0 <= j < i ==> self.depth_buffer@[j] == depth,
            decreases n - i,
        {
            self.depth_buffer.set(i, depth);
            i = i + 1;
        }
        assert(self.depths() =~= Seq::new(old(self).depths().len(), |i: int| depth));
    }

    /// Sets the pixel word at `pos`.
    pub fn set_color(&mut self, pos: PixelPosition, color: u32) -> (r: Result<(), RenderError>)
        requires
            old(self).wf(),
        ensures
            final(self).wf(),
            final(self).spec_width() == old(self).spec_width(),
            final(self).spec_height() == old(self).spec_height(),
            final(self).depths() == old(self).depths(),
            old(self).in_bounds(pos) ==> r is Ok && final(self).colors() == old(self).colors().update(
                old(self).index_of(pos.0 as int, pos.1 as int),
                color,
            ),
            !old(self).in_bounds(pos) ==> r == Err::<(), RenderError>(RenderError::PixelOutOfBounds)
                && *final(self) == *old(self),
    {
        if !self.contains(pos) {
            return Err(RenderError::PixelOutOfBounds);
        }
        let idx = self.pos_to_idx(pos);
        self.color_buffer.set(idx, color);
        Ok(())
    }

    /// Sets the depth at `pos`.
    pub fn set_depth(&mut self, pos: PixelPosition, depth: i32) -> (r: Result<(), RenderError>)
        requires
            old(self).wf(),
        ensures
            final(self).wf(),
            final(self).spec_width() == old(self).spec_width(),
            final(self).spec_height() == old(self).spec_height(),
            final(self).colors() == old(self).colors(),
            old(self).in_bounds(pos) ==> r is Ok && final(self).depths() == old(self).depths().update(
                old(self).index_of(pos.0 as int, pos.1 as int),
                depth,
            ),
            !old(self).in_bounds(pos) ==> r == Err::<(), RenderError>(RenderError::PixelOutOfBounds)
                && *final(self) == *old(self),
    {
        if !self.contains(pos) {
            return Err(RenderError::PixelOutOfBounds);
        }
        let idx = self.pos_to_idx(pos);
        self.depth_buffer.set(idx, depth);
        Ok(())
    }

    /// The depth stored at `pos`.
    pub fn depth(&self, pos: PixelPosition) -> (r: Result<i32, RenderError>)
        requires
            self.wf(),
        ensures
            self.in_bounds(pos) ==> r == Ok::<i32, RenderError>(
                self.depths()[self.index_of(pos.0 as int, pos.1 as int)],
            ),
            !self.in_bounds(pos) ==> r == Err::<i32, RenderError>(RenderError::PixelOutOfBounds),
    {
        if !self.contains(pos) {
            return Err(RenderError::PixelOutOfBounds);
        }
        Ok(self.depth_buffer[self.pos_to_idx(pos)])
    }

    /// The colour buffer, row by row.
    pub fn color_buffer(&self) -> (r: &[u32])
        ensures
            r@ == self.colors(),
    {
        self.color_buffer.as_slice()
    }

    #[verifier::when_used_as_spec(spec_width)]
    pub fn width(&self) -> (r: u32)
        ensures
            r == self.spec_width(),
    {
        self.width
    }

    #[verifier::when_used_as_spec(spec_height)]
    pub fn height(&self) -> (r: u32)
        ensures
            r == self.spec_height(),
    {
        self.height
    }

    /// Whether `pos` lies on the framebuffer.
    pub fn contains(&self, pos: PixelPosition) -> (r: bool)
        ensures
            r == self.in_bounds(pos),
    {
        (pos.0 as u32) < self.width && (pos.1 as u32) < self.height
    }

    fn pos_to_idx(&self, pos: PixelPosition) -> (r: usize)
        requires
            self.wf(),
            self.in_bounds(pos),
        ensures
            r == self.index_of(pos.0 as int, pos.1 as int),
            r < self.colors().len(),
    {
        let x = pos.0 as u32;
        let y = pos.1 as u32;
        proof {
            lemma_index_in_range(x as int, y as int, self.width as int, self.height as int);
        }
        (x + y * self.width) as usize
    }
}

/// A pixel inside a `width` x `height` grid has a row-major index below
/// `width * height`.
pub proof fn lemma_index_in_range(x: int, y: int, width: int, height: int)
    requires
        0 <= x < width,
        0 <= y < height,
    ensures
        0 <= x + y * width < width * height,
{
    assert(x + y * width < width * height) by (nonlinear_arith)
        requires
            0 <= x < width,
            0 <= y < height,
    ;
    assert(0 <= y * width) by (nonlinear_arith)
        requires
            0 <= y,
            0 <= width,
    ;
}

} // verus!
