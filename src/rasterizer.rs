use vstd::prelude::*;

use crate::barycentric::{barycentric, interpolate, lemma_interpolate_bounds};
use crate::framebuffer::{lemma_index_in_range, Framebuffer};
use crate::line::{
    abs_diff, is_steep, lemma_minor_step, lemma_minor_steps_monotone, line_error, line_frame,
    line_len, line_point, minor_steps, on_line, on_line_before,
};
use crate::triangle::{
    bbox_hi, bbox_lo, box_hi, box_lo, covers_pixel, frag_depth, frag_tex, in_bbox,
    tex_coords_in_range,
};
use crate::texture::Texture;
use crate::types::{packed, Color, PixelPosition, RenderError, ScreenPos, TexCoord, SUBPIXEL};

verus! {

/// Where the origin of drawing coordinates lies.
#[derive(Debug, Clone, Copy, PartialEq, Eq, Structural)]
pub enum DrawOrigin {
    TopLeft,
    BottomLeft,
}

/// Row of storage that the drawing row `y` lands on in a framebuffer
/// `height` rows high: with a bottom-left origin, rows are counted upward.
pub open spec fn storage_row(origin: DrawOrigin, height: int, y: int) -> int {
    match origin {
        DrawOrigin::TopLeft => y,
        DrawOrigin::BottomLeft => height - 1 - y,
    }
}

/// Holds a framebuffer and draws lines and triangles on it.
pub struct Rasterizer {
    framebuffer: Framebuffer,
    clear_color: Color,
    depth_value: i32,
    draw_origin: DrawOrigin,
}

impl Rasterizer {
    /// The framebuffer drawn on.
    pub closed spec fn frame(&self) -> Framebuffer {
        self.framebuffer
    }

    pub closed spec fn origin(&self) -> DrawOrigin {
        self.draw_origin
    }

    pub closed spec fn spec_clear_color(&self) -> Color {
        self.clear_color
    }

    pub closed spec fn spec_depth_value(&self) -> i32 {
        self.depth_value
    }

    pub open spec fn spec_width(&self) -> int {
        self.frame().spec_width() as int
    }

    pub open spec fn spec_height(&self) -> int {
        self.frame().spec_height() as int
    }

    /// The framebuffer is well formed and its sides fit in 16 bits.
    pub open spec fn wf(&self) -> bool {
        &&& self.frame().wf()
        &&& self.spec_width() <= u16::MAX
        &&& self.spec_height() <= u16::MAX
    }

    /// Whether `(x, y)` is a pixel of the framebuffer.
    pub open spec fn on_screen(&self, x: int, y: int) -> bool {
        0 <= x < self.spec_width() && 0 <= y < self.spec_height()
    }

    /// The packed colour shown at drawing position `(x, y)`.
    pub open spec fn pixel(&self, x: int, y: int) -> u32 {
        self.frame().colors()[self.frame().index_of(
            x,
            storage_row(self.origin(), self.spec_height(), y),
        )]
    }

    /// The depth stored for drawing position `(x, y)`. The depth buffer is
    /// indexed by drawing position with no origin remapping.
    pub open spec fn depth_at(&self, x: int, y: int) -> i32 {
        self.frame().depths()[self.frame().index_of(x, y)]
    }

    /// Same framebuffer size and same settings.
    pub open spec fn same_setup(&self, other: &Rasterizer) -> bool {
        &&& self.spec_width() == other.spec_width()
        &&& self.spec_height() == other.spec_height()
        &&& self.origin() == other.origin()
        &&& self.spec_clear_color() == other.spec_clear_color()
        &&& self.spec_depth_value() == other.spec_depth_value()
    }

    /// An empty rasterizer: a 0 x 0 framebuffer, black clear colour, the
    /// least depth as clear depth, origin at the top left.
    pub fn new() -> (r: Self)
        ensures
            r.wf(),
            r.spec_width() == 0,
            r.spec_height() == 0,
            r.spec_clear_color() == (0u8, 0u8, 0u8),
            r.spec_depth_value() == i32::MIN,
            r.origin() == DrawOrigin::TopLeft,
    {
        Self {
            framebuffer: Framebuffer::new(0, 0),
            clear_color: (0, 0, 0),
            depth_value: i32::MIN,
            draw_origin: DrawOrigin::TopLeft,
        }
    }

    /// Sets the origin for draw operations.
    pub fn set_origin(&mut self, origin: DrawOrigin)
        ensures
            final(self).origin() == origin,
            final(self).frame() == old(self).frame(),
            final(self).spec_clear_color() == old(self).spec_clear_color(),
            final(self).spec_depth_value() == old(self).spec_depth_value(),
    {
        self.draw_origin = origin;
    }

    /// Resizes the framebuffer if the width and height do not match; when
    /// they do, nothing changes.
    pub fn resize(&mut self, width: u16, height: u16)
        requires
            old(self).wf(),
        ensures
            final(self).wf(),
            final(self).spec_width() == width,
            final(self).spec_height() == height,
            final(self).frame().colors().len() == width as int * height as int,
            final(self).frame().depths().len() == width as int * height as int,
            old(self).spec_width() == width && old(self).spec_height() == height ==> *final(self)
                == *old(self),
            final(self).origin() == old(self).origin(),
            final(self).spec_clear_color() == old(self).spec_clear_color(),
            final(self).spec_depth_value() == old(self).spec_depth_value(),
    {
        assert(width as int * height as int <= u32::MAX) by (nonlinear_arith)
            requires
                width <= u16::MAX,
                height <= u16::MAX,
        ;
        self.framebuffer.resize(width as u32, height as u32);
    }

    /// Sets the colour used to clear the background.
    pub fn set_clear_color(&mut self, color: Color)
        ensures
            final(self).spec_clear_color() == color,
            final(self).frame() == old(self).frame(),
            final(self).origin() == old(self).origin(),
            final(self).spec_depth_value() == old(self).spec_depth_value(),
    {
        self.clear_color = color;
    }

    /// Sets the depth that `clear` writes.
    pub fn set_depth_value(&mut self, depth: i32)
        ensures
            final(self).spec_depth_value() == depth,
            final(self).frame() == old(self).frame(),
            final(self).origin() == old(self).origin(),
            final(self).spec_clear_color() == old(self).spec_clear_color(),
    {
        self.depth_value = depth;
    }

    /// Fills the colour buffer with the clear colour and the depth buffer
    /// with the clear depth.
    pub fn clear(&mut self)
        requires
            old(self).wf(),
        ensures
            final(self).wf(),
            final(self).same_setup(old(self)),
            final(self).frame().colors() == Seq::new(
                old(self).frame().colors().len(),
                |i: int| packed(old(self).spec_clear_color()),
            ),
            final(self).frame().depths() == Seq::new(
                old(self).frame().depths().len(),
                |i: int| old(self).spec_depth_value(),
            ),
    {
        self.framebuffer.set_color_rgb_all(self.clear_color);
        self.framebuffer.set_depth_all(self.depth_value);
    }

    /// Sets the pixel at drawing position `pos`, remapped to storage by the
    /// draw origin. A position off the framebuffer is an error.
    pub fn set_pixel(&mut self, pos: PixelPosition, color: Color) -> (r: Result<(), RenderError>)
        requires
            old(self).wf(),
        ensures
            final(self).wf(),
            final(self).same_setup(old(self)),
            final(self).frame().depths() == old(self).frame().depths(),
            old(self).on_screen(pos.0 as int, pos.1 as int) ==> r is Ok
                && final(self).frame().colors() == old(self).frame().colors().update(
                old(self).frame().index_of(
                    pos.0 as int,
                    storage_row(old(self).origin(), old(self).spec_height(), pos.1 as int),
                ),
                packed(color),
            ),
            !old(self).on_screen(pos.0 as int, pos.1 as int) ==> r == Err::<(), RenderError>(
                RenderError::PixelOutOfBounds,
            ) && *final(self) == *old(self),
    {
        if !self.framebuffer.contains(pos) {
            return Err(RenderError::PixelOutOfBounds);
        }
        match self.draw_origin {
            DrawOrigin::TopLeft => self.framebuffer.set_color_rgb(pos, color),
            DrawOrigin::BottomLeft => {
                let height = self.framebuffer.height() as u16;
                let pos = (pos.0, (height - 1) - pos.1);
                self.framebuffer.set_color_rgb(pos, color)
            },
        }
    }

    /// Every pixel that a line plots lies on the framebuffer. Since the
    /// plotted pixels move monotonically on both axes, the first and the
    /// last one decide.
    pub open spec fn line_fits(&self, start: PixelPosition, end: PixelPosition) -> bool {
        let n = line_len(start, end);
        n == 0 || {
            let p = line_point(start, end, 0);
            let q = line_point(start, end, n - 1);
            self.on_screen(p.0, p.1) && self.on_screen(q.0, q.1)
        }
    }

    /// Draws a line with integer Bresenham stepping along the major axis,
    /// from the endpoint with the smaller major coordinate up to, but not
    /// including, the other one. If a pixel to plot lies off the
    /// framebuffer, nothing is drawn and the result is an error.
    pub fn draw_line(&mut self, start: PixelPosition, end: PixelPosition, color: Color) -> (r: Result<
        (),
        RenderError,
    >)
        requires
            old(self).wf(),
        ensures
            final(self).wf(),
            final(self).same_setup(old(self)),
            final(self).frame().depths() == old(self).frame().depths(),
            old(self).line_fits(start, end) ==> r is Ok,
            old(self).line_fits(start, end) ==> forall|x: int, y: int|
                #![trigger final(self).pixel(x, y)]
                old(self).on_screen(x, y) ==> final(self).pixel(x, y) == if on_line(
                    start,
                    end,
                    x,
                    y,
                ) {
                    packed(color)
                } else {
                    old(self).pixel(x, y)
                },
            !old(self).line_fits(start, end) ==> r == Err::<(), RenderError>(
                RenderError::PixelOutOfBounds,
            ) && *final(self) == *old(self),
    {
        let mut x0 = start.0 as i64;
        let mut y0 = start.1 as i64;
        let mut x1 = end.0 as i64;
        let mut y1 = end.1 as i64;
        let adx = if x0 > x1 { x0 - x1 } else { x1 - x0 };
        let ady = if y0 > y1 { y0 - y1 } else { y1 - y0 };
        let steep = adx < ady;
        if steep {
            let t = x0;
            x0 = y0;
            y0 = t;
            let t = x1;
            x1 = y1;
            y1 = t;
        }
        if x0 > x1 {
            let t = x0;
            x0 = x1;
            x1 = t;
            let t = y0;
            y0 = y1;
            y1 = t;
        }
        let ghost f = line_frame(start, end);
        assert(f == (x0 as int, y0 as int, x1 as int, y1 as int));
        let dx = x1 - x0;
        let dy = y1 - y0;
        if dx == 0 {
            proof {
                assert forall|x: int, y: int| old(self).on_screen(x, y) implies !on_line(
                    start,
                    end,
                    x,
                    y,
                ) by {}
            }
            return Ok(());
        }
        let abs_dy = if dy < 0 { -dy } else { dy };
        let derror2 = abs_dy * 2;
        // The pixels move monotonically, so the first and last decide
        // whether the whole line fits.
        assert(derror2 * (dx - 1) <= 2 * 65535 * 65535) by (nonlinear_arith)
            requires
                0 <= derror2 <= 2 * 65535,
                0 <= dx - 1 <= 65535,
        ;
        let last_steps = (derror2 * (dx - 1) + dx - 1) / (2 * dx);
        assert(derror2 * (dx - 1) == 2 * (dx - 1) * abs_dy) by (nonlinear_arith)
            requires
                derror2 == 2 * abs_dy,
        ;
        let last_y = if y1 > y0 {
            y0 + last_steps
        } else {
            y0 - last_steps
        };
        let (fx, fy, lx, ly) = if steep {
            (y0, x0, last_y, x1 - 1)
        } else {
            (x0, y0, x1 - 1, last_y)
        };
        let width = self.framebuffer.width() as i64;
        let height = self.framebuffer.height() as i64;
        proof {
            lemma_minor_steps_monotone(dx as int, abs_dy as int, 0, dx - 1);
            assert(minor_steps(dx as int, abs_dy as int, dx - 1) == last_steps);
            assert(line_point(start, end, 0) == (fx as int, fy as int));
            assert(line_point(start, end, dx - 1) == (lx as int, ly as int));
        }
        if fx < 0 || fx >= width || fy < 0 || fy >= height || lx < 0 || lx >= width || ly < 0
            || ly >= height {
            return Err(RenderError::PixelOutOfBounds);
        }
        self.trace_line(start, end, color, steep, x0, y0, x1, y1, abs_dy);
        Ok(())
    }

    /// Plots the pixels of a line whose frame `line_frame(start, end)` is
    /// `(x0, y0, x1, y1)`, with `x0 < x1`, and all of whose pixels lie on
    /// the framebuffer.
    fn trace_line(
        &mut self,
        start: PixelPosition,
        end: PixelPosition,
        color: Color,
        steep: bool,
        x0: i64,
        y0: i64,
        x1: i64,
        y1: i64,
        abs_dy: i64,
    )
        requires
            old(self).wf(),
            old(self).line_fits(start, end),
            line_frame(start, end) == (x0 as int, y0 as int, x1 as int, y1 as int),
            steep == is_steep(start, end),
            0 <= x0 < x1 <= u16::MAX,
            abs_dy == abs_diff(y1 as int, y0 as int),
            abs_dy <= x1 - x0,
        ensures
            final(self).wf(),
            final(self).same_setup(old(self)),
            final(self).frame().depths() == old(self).frame().depths(),
            forall|x: int, y: int|
                #![trigger final(self).pixel(x, y)]
                old(self).on_screen(x, y) ==> final(self).pixel(x, y) == if on_line(
                    start,
                    end,
                    x,
                    y,
                ) {
                    packed(color)
                } else {
                    old(self).pixel(x, y)
                },
    {
        let ghost f = line_frame(start, end);
        let dx = x1 - x0;
        let derror2 = abs_dy * 2;
        let up = y1 > y0;
        let ystep: i64 = if up { 1 } else { -1 };
        proof {
            lemma_minor_steps_monotone(dx as int, abs_dy as int, 0, 0);
        }
        let mut error2: i64 = 0;
        let mut y = y0;
        let mut x = x0;
        while x < x1
            invariant
                self.wf(),
                self.same_setup(old(self)),
                self.frame().depths() == old(self).frame().depths(),
                old(self).wf(),
                old(self).line_fits(start, end),
                f == line_frame(start, end),
                f == (x0 as int, y0 as int, x1 as int, y1 as int),
                up == (y1 > y0),
                steep == is_steep(start, end),
                0 <= x0 <= x <= x1 <= u16::MAX,
                -1 <= y <= u16::MAX + 1,
                dx == x1 - x0,
                dx > 0,
                abs_dy == abs_diff(y1 as int, y0 as int),
                abs_dy <= dx,
                derror2 == 2 * abs_dy,
                ystep == (if up { 1int } else { -1int }),
                y == (if up {
                    y0 + minor_steps(dx as int, abs_dy as int, x - x0)
                } else {
                    y0 - minor_steps(dx as int, abs_dy as int, x - x0)
                }),
                error2 == line_error(dx as int, abs_dy as int, x - x0),
                forall|px: int, py: int|
                    #![trigger self.pixel(px, py)]
                    old(self).on_screen(px, py) ==> self.pixel(px, py) == if on_line_before(
                        start,
                        end,
                        x - x0,
                        px,
                        py,
                    ) {
                        packed(color)
                    } else {
                        old(self).pixel(px, py)
                    },
            decreases x1 - x,
        {
            let ghost k = x - x0;
            proof {
                lemma_line_point_on_screen(*old(self), start, end, k);
            }
            let pos = if steep {
                (y as u16, x as u16)
            } else {
                (x as u16, y as u16)
            };
            assert((pos.0 as int, pos.1 as int) == line_point(start, end, k));
            let ghost before = *self;
            let _ = self.set_pixel(pos, color);
            proof {
                assert forall|px: int, py: int| old(self).on_screen(px, py) implies #[trigger] self.pixel(
                    px,
                    py,
                ) == if on_line_before(start, end, k + 1, px, py) {
                    packed(color)
                } else {
                    old(self).pixel(px, py)
                } by {
                    lemma_pixel_after_set(before, *self, pos, color, px, py);
                }
            }
            let ghost m = minor_steps(dx as int, abs_dy as int, k);
            proof {
                lemma_minor_step(dx as int, abs_dy as int, k);
            }
            error2 = error2 + derror2;
            if error2 > dx {
                y = y + ystep;
                error2 = error2 - dx * 2;
            }
            x = x + 1;
        }
    }

    /// Whether drawing the triangle `p` writes pixel `(x, y)`: the pixel is
    /// in the clamped bounding box, its centre is covered, and the
    /// triangle's depth there is greater than the stored one.
    pub open spec fn triangle_writes(&self, p: [ScreenPos; 3], x: int, y: int) -> bool {
        &&& in_bbox(p[0], p[1], p[2], self.spec_width(), self.spec_height(), x, y)
        &&& covers_pixel(p[0], p[1], p[2], x, y)
        &&& self.depth_at(x, y) < frag_depth(p[0], p[1], p[2], x, y)
    }

    /// `after` is this rasterizer once the triangle `p` with texture
    /// coordinates `t` has been drawn on the pixels for which `done` holds.
    pub open spec fn drawn_on(
        &self,
        after: &Rasterizer,
        p: [ScreenPos; 3],
        t: [TexCoord; 3],
        texture: &Texture,
        done: spec_fn(int, int) -> bool,
    ) -> bool {
        &&& after.wf()
        &&& after.same_setup(self)
        &&& forall|x: int, y: int|
            #![trigger after.depth_at(x, y)]
            self.on_screen(x, y) ==> after.depth_at(x, y) == if done(x, y)
                && self.triangle_writes(p, x, y) {
                frag_depth(p[0], p[1], p[2], x, y) as i32
            } else {
                self.depth_at(x, y)
            }
        &&& forall|x: int, y: int|
            #![trigger after.pixel(x, y)]
            self.on_screen(x, y) ==> after.pixel(x, y) == if done(x, y) && self.triangle_writes(
                p,
                x,
                y,
            ) {
                packed(texture.sample(frag_tex(p[0], p[1], p[2], t, x, y)))
            } else {
                self.pixel(x, y)
            }
    }

    /// `after` is this rasterizer once the triangle `p` with texture
    /// coordinates `t` has been drawn: each written pixel holds the
    /// triangle's depth and the texture's colour there; every other pixel
    /// is as it was.
    pub open spec fn triangle_drawn(
        &self,
        after: &Rasterizer,
        p: [ScreenPos; 3],
        t: [TexCoord; 3],
        texture: &Texture,
    ) -> bool {
        self.drawn_on(after, p, t, texture, |x: int, y: int| true)
    }

    /// Draws a textured triangle. Every pixel of the bounding box (clamped
    /// to the framebuffer) whose centre has no negative barycentric weight
    /// is depth-tested against the interpolated depth, greater winning;
    /// where it passes, the depth is stored and the texture is sampled at
    /// the interpolated texture coordinate. A texture coordinate outside
    /// `[0, TEX_ONE]` is an error, and then nothing is drawn.
    pub fn draw_triangle(
        &mut self,
        positions: [ScreenPos; 3],
        tex_coords: [TexCoord; 3],
        texture: &Texture,
    ) -> (r: Result<(), RenderError>)
        requires
            old(self).wf(),
            texture.wf(),
        ensures
            r is Ok <==> tex_coords_in_range(tex_coords),
            r is Ok ==> old(self).triangle_drawn(final(self), positions, tex_coords, texture),
            r is Err ==> r == Err::<(), RenderError>(RenderError::TexCoordOutOfRange)
                && *final(self) == *old(self),
    {
        let a = positions[0];
        let b = positions[1];
        let c = positions[2];
        let t0 = tex_coords[0];
        let t1 = tex_coords[1];
        let t2 = tex_coords[2];
        if !t0.is_in_range() || !t1.is_in_range() || !t2.is_in_range() {
            return Err(RenderError::TexCoordOutOfRange);
        }
        let width = self.framebuffer.width() as i64;
        let height = self.framebuffer.height() as i64;
        let x_lo = box_lo(a.x, b.x, c.x);
        let x_hi = box_hi(a.x, b.x, c.x, width);
        let y_lo = box_lo(a.y, b.y, c.y);
        let y_hi = box_hi(a.y, b.y, c.y, height);
        let mut x = x_lo;
        while x <= x_hi
            invariant
                old(self).wf(),
                texture.wf(),
                tex_coords_in_range(tex_coords),
                a == positions[0],
                b == positions[1],
                c == positions[2],
                t0 == tex_coords[0],
                t1 == tex_coords[1],
                t2 == tex_coords[2],
                width == old(self).spec_width(),
                height == old(self).spec_height(),
                x_lo == bbox_lo(a.x as int, b.x as int, c.x as int),
                x_hi == bbox_hi(a.x as int, b.x as int, c.x as int, width as int),
                y_lo == bbox_lo(a.y as int, b.y as int, c.y as int),
                y_hi == bbox_hi(a.y as int, b.y as int, c.y as int, height as int),
                0 <= x_lo <= x <= x_hi + 1 || (x == x_lo && x_lo > x_hi),
                x_hi < width,
                y_hi < height,
                0 <= y_lo,
                old(self).drawn_on(
                    self,
                    positions,
                    tex_coords,
                    texture,
                    |px: int, py: int| px < x,
                ),
            decreases x_hi + 1 - x,
        {
            proof {
                lemma_column_start(*old(self), *self, positions, tex_coords, *texture, x as int);
            }
            let mut y = y_lo;
            while y <= y_hi
                invariant
                    old(self).wf(),
                    texture.wf(),
                    tex_coords_in_range(tex_coords),
                    a == positions[0],
                    b == positions[1],
                    c == positions[2],
                    t0 == tex_coords[0],
                    t1 == tex_coords[1],
                    t2 == tex_coords[2],
                    width == old(self).spec_width(),
                    height == old(self).spec_height(),
                    x_lo == bbox_lo(a.x as int, b.x as int, c.x as int),
                    x_hi == bbox_hi(a.x as int, b.x as int, c.x as int, width as int),
                    y_lo == bbox_lo(a.y as int, b.y as int, c.y as int),
                    y_hi == bbox_hi(a.y as int, b.y as int, c.y as int, height as int),
                    0 <= x_lo <= x <= x_hi,
                    x_hi < width,
                    y_hi < height,
                    0 <= y_lo,
                    y_lo <= y <= y_hi + 1 || (y == y_lo && y_lo > y_hi),
                    old(self).drawn_on(
                        self,
                        positions,
                        tex_coords,
                        texture,
                        |px: int, py: int| px < x || (px == x && py < y),
                    ),
                decreases y_hi + 1 - y,
            {
                let ghost before = *self;
                self.shade_pixel(a, b, c, tex_coords, texture, x as u16, y as u16);
                proof {
                    lemma_shade_step(
                        *old(self),
                        before,
                        *self,
                        positions,
                        tex_coords,
                        *texture,
                        x as int,
                        y as int,
                    );
                }
                y = y + 1;
            }
            proof {
                lemma_column_done(
                    *old(self),
                    *self,
                    positions,
                    tex_coords,
                    *texture,
                    x as int,
                    y as int,
                );
            }
            x = x + 1;
        }
        proof {
            lemma_all_columns_done(*old(self), *self, positions, tex_coords, *texture, x as int);
        }
        Ok(())
    }

    /// `after` is this rasterizer once pixel `(x, y)` alone of the
    /// triangle `a`, `b`, `c` has been depth-tested and drawn.
    spec fn shaded(
        &self,
        after: &Rasterizer,
        a: ScreenPos,
        b: ScreenPos,
        c: ScreenPos,
        t: [TexCoord; 3],
        texture: &Texture,
        x: int,
        y: int,
    ) -> bool {
        let hit = covers_pixel(a, b, c, x, y) && self.depth_at(x, y) < frag_depth(a, b, c, x, y);
        &&& after.wf()
        &&& after.same_setup(self)
        &&& forall|px: int, py: int|
            #![trigger after.depth_at(px, py)]
            self.on_screen(px, py) ==> after.depth_at(px, py) == if (px, py) == (x, y) && hit {
                frag_depth(a, b, c, x, y) as i32
            } else {
                self.depth_at(px, py)
            }
        &&& forall|px: int, py: int|
            #![trigger after.pixel(px, py)]
            self.on_screen(px, py) ==> after.pixel(px, py) == if (px, py) == (x, y) && hit {
                packed(texture.sample(frag_tex(a, b, c, t, x, y)))
            } else {
                self.pixel(px, py)
            }
    }

    /// Depth-tests and, where the test passes, draws one pixel of the
    /// triangle `a`, `b`, `c`.
    fn shade_pixel(
        &mut self,
        a: ScreenPos,
        b: ScreenPos,
        c: ScreenPos,
        t: [TexCoord; 3],
        texture: &Texture,
        x: u16,
        y: u16,
    )
        requires
            old(self).wf(),
            texture.wf(),
            tex_coords_in_range(t),
            old(self).on_screen(x as int, y as int),
        ensures
            old(self).shaded(final(self), a, b, c, t, texture, x as int, y as int),
    {
        let point = ScreenPos { x: x as i32 * SUBPIXEL, y: y as i32 * SUBPIXEL, z: 0 };
        let bc = barycentric(a, b, c, point);
        let w = match bc {
            Some(w) => w,
            None => {
                return ;
            },
        };
        if !w.all_nonnegative() {
            return ;
        }
        let z = interpolate(&w, a.z, b.z, c.z);
        let pos = (x, y);
        let stored = match self.framebuffer.depth(pos) {
            Ok(d) => d,
            Err(_) => return ,
        };
        if stored < z {
            let ghost before = *self;
            let _ = self.framebuffer.set_depth(pos, z);
            proof {
                assert forall|px: int, py: int| old(self).on_screen(px, py) implies #[trigger] self.depth_at(
                    px,
                    py,
                ) == if (px, py) == (x as int, y as int) {
                    z
                } else {
                    old(self).depth_at(px, py)
                } by {
                    lemma_depth_after_set(before, *self, pos, z, px, py);
                }
            }
            proof {
                lemma_interpolate_bounds(w@, t[0].u as int, t[1].u as int, t[2].u as int, 0, 65536);
                lemma_interpolate_bounds(w@, t[0].v as int, t[1].v as int, t[2].v as int, 0, 65536);
            }
            let uv = TexCoord {
                u: interpolate(&w, t[0].u, t[1].u, t[2].u),
                v: interpolate(&w, t[0].v, t[1].v, t[2].v),
            };
            let color = match texture.color(uv) {
                Ok(col) => col,
                Err(_) => return ,
            };
            let ghost mid = *self;
            assert(uv == frag_tex(a, b, c, t, x as int, y as int));
            assert(z == frag_depth(a, b, c, x as int, y as int));
            let _ = self.set_pixel(pos, color);
            proof {
                assert forall|px: int, py: int| old(self).on_screen(px, py) implies #[trigger] self.pixel(
                    px,
                    py,
                ) == if (px, py) == (x as int, y as int) {
                    packed(color)
                } else {
                    old(self).pixel(px, py)
                } by {
                    lemma_pixel_after_set(mid, *self, pos, color, px, py);
                }
                assert forall|px: int, py: int| old(self).on_screen(px, py) implies #[trigger] self.depth_at(
                    px,
                    py,
                ) == mid.depth_at(px, py) by {}
            }
        }
    }

    /// The colour buffer, row by row from the top.
    pub fn buffer(&self) -> (r: &[u32])
        ensures
            r@ == self.frame().colors(),
    {
        self.framebuffer.color_buffer()
    }
}

/// Every pixel that a fitting line plots lies on the framebuffer.
proof fn lemma_line_point_on_screen(r: Rasterizer, start: PixelPosition, end: PixelPosition, k: int)
    requires
        r.line_fits(start, end),
        0 <= k < line_len(start, end),
    ensures
        r.on_screen(line_point(start, end, k).0, line_point(start, end, k).1),
{
    let f = line_frame(start, end);
    let du = f.2 - f.0;
    let dv = abs_diff(f.3, f.1);
    assert(dv <= du);
    lemma_minor_steps_monotone(du, dv, 0, k);
    lemma_minor_steps_monotone(du, dv, k, du - 1);
    let q = line_point(start, end, du - 1);
    let c = line_point(start, end, k);
    let m = minor_steps(du, dv, k);
    let ml = minor_steps(du, dv, du - 1);
    let (v, vl) = if f.3 > f.1 {
        (f.1 + m, f.1 + ml)
    } else {
        (f.1 - m, f.1 - ml)
    };
    if is_steep(start, end) {
        assert(c == (v, f.0 + k) && q == (vl, f.0 + du - 1));
    } else {
        assert(c == (f.0 + k, v) && q == (f.0 + du - 1, vl));
    }
}

/// Before a column is swept, the pixels above its box are as good as
/// done: the triangle writes none of them.
proof fn lemma_column_start(
    orig: Rasterizer,
    cur: Rasterizer,
    p: [ScreenPos; 3],
    t: [TexCoord; 3],
    texture: Texture,
    x: int,
)
    requires
        orig.drawn_on(&cur, p, t, &texture, |px: int, py: int| px < x),
    ensures
        orig.drawn_on(
            &cur,
            p,
            t,
            &texture,
            |px: int, py: int|
                px < x || (px == x && py < bbox_lo(p[0].y as int, p[1].y as int, p[2].y as int)),
        ),
{
}

/// Shading pixel `(x, y)` extends the swept region by that pixel.
proof fn lemma_shade_step(
    orig: Rasterizer,
    before: Rasterizer,
    after: Rasterizer,
    p: [ScreenPos; 3],
    t: [TexCoord; 3],
    texture: Texture,
    x: int,
    y: int,
)
    requires
        orig.drawn_on(&before, p, t, &texture, |px: int, py: int| px < x || (px == x && py < y)),
        before.shaded(&after, p[0], p[1], p[2], t, &texture, x, y),
        orig.on_screen(x, y),
        in_bbox(p[0], p[1], p[2], orig.spec_width(), orig.spec_height(), x, y),
    ensures
        orig.drawn_on(
            &after,
            p,
            t,
            &texture,
            |px: int, py: int| px < x || (px == x && py < y + 1),
        ),
{
    assert(before.depth_at(x, y) == orig.depth_at(x, y));
}

/// Once a column has been swept past its box, the whole column is done.
proof fn lemma_column_done(
    orig: Rasterizer,
    cur: Rasterizer,
    p: [ScreenPos; 3],
    t: [TexCoord; 3],
    texture: Texture,
    x: int,
    y: int,
)
    requires
        orig.drawn_on(&cur, p, t, &texture, |px: int, py: int| px < x || (px == x && py < y)),
        y > bbox_hi(p[0].y as int, p[1].y as int, p[2].y as int, orig.spec_height()),
    ensures
        orig.drawn_on(&cur, p, t, &texture, |px: int, py: int| px < x + 1),
{
}

/// Once the sweep has passed the box, the whole triangle is drawn.
proof fn lemma_all_columns_done(
    orig: Rasterizer,
    cur: Rasterizer,
    p: [ScreenPos; 3],
    t: [TexCoord; 3],
    texture: Texture,
    x: int,
)
    requires
        orig.drawn_on(&cur, p, t, &texture, |px: int, py: int| px < x),
        x > bbox_hi(p[0].x as int, p[1].x as int, p[2].x as int, orig.spec_width()),
    ensures
        orig.triangle_drawn(&cur, p, t, &texture),
{
}

/// After one depth is set, the depth buffer differs from before at that
/// pixel alone.
proof fn lemma_depth_after_set(
    before: Rasterizer,
    after: Rasterizer,
    pos: PixelPosition,
    depth: i32,
    x: int,
    y: int,
)
    requires
        before.wf(),
        after.same_setup(&before),
        before.on_screen(pos.0 as int, pos.1 as int),
        before.on_screen(x, y),
        after.frame().depths() == before.frame().depths().update(
            before.frame().index_of(pos.0 as int, pos.1 as int),
            depth,
        ),
    ensures
        after.depth_at(x, y) == if (x, y) == (pos.0 as int, pos.1 as int) {
            depth
        } else {
            before.depth_at(x, y)
        },
{
    let w = before.spec_width();
    let h = before.spec_height();
    lemma_index_in_range(x, y, w, h);
    lemma_index_in_range(pos.0 as int, pos.1 as int, w, h);
    if x + y * w == pos.0 + pos.1 * w {
        lemma_index_injective(x, y, pos.0 as int, pos.1 as int, w);
    }
}

/// After one pixel is set, the picture differs from before at that pixel
/// alone.
proof fn lemma_pixel_after_set(
    before: Rasterizer,
    after: Rasterizer,
    pos: PixelPosition,
    color: Color,
    x: int,
    y: int,
)
    requires
        before.wf(),
        after.same_setup(&before),
        before.on_screen(pos.0 as int, pos.1 as int),
        before.on_screen(x, y),
        after.frame().colors() == before.frame().colors().update(
            before.frame().index_of(
                pos.0 as int,
                storage_row(before.origin(), before.spec_height(), pos.1 as int),
            ),
            packed(color),
        ),
    ensures
        after.pixel(x, y) == if (x, y) == (pos.0 as int, pos.1 as int) {
            packed(color)
        } else {
            before.pixel(x, y)
        },
{
    let w = before.spec_width();
    let h = before.spec_height();
    let sy = storage_row(before.origin(), h, y);
    let sp = storage_row(before.origin(), h, pos.1 as int);
    lemma_index_in_range(x, sy, w, h);
    lemma_index_in_range(pos.0 as int, sp, w, h);
    if x + sy * w == pos.0 + sp * w {
        lemma_index_injective(x, sy, pos.0 as int, sp, w);
    }
}

/// Two pixels of a `width`-wide grid share a row-major index only if they
/// are the same pixel.
pub proof fn lemma_index_injective(x1: int, y1: int, x2: int, y2: int, width: int)
    requires
        0 <= x1 < width,
        0 <= x2 < width,
        x1 + y1 * width == x2 + y2 * width,
    ensures
        x1 == x2,
        y1 == y2,
{
    vstd::arithmetic::div_mod::lemma_fundamental_div_mod_converse(
        x1 + y1 * width,
        width,
        y1,
        x1,
    );
    vstd::arithmetic::div_mod::lemma_fundamental_div_mod_converse(
        x2 + y2 * width,
        width,
        y2,
        x2,
    );
}

} // verus!
