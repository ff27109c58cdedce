use vstd::prelude::*;

use crate::barycentric::{
    covers, interpolate_spec, is_degenerate, lemma_interpolate_bounds, twice_area, weights,
};
use crate::rasterizer::{storage_row, Rasterizer};
use crate::texture::{tex_coord_in_range, Texture};
use crate::types::{packed, ScreenPos, TexCoord, SUBPIXEL};

verus! {

/// The least of three integers.
pub open spec fn min3(a: int, b: int, c: int) -> int {
    if a <= b && a <= c {
        a
    } else if b <= c {
        b
    } else {
        c
    }
}

/// The greatest of three integers.
pub open spec fn max3(a: int, b: int, c: int) -> int {
    if a >= b && a >= c {
        a
    } else if b >= c {
        b
    } else {
        c
    }
}

/// First pixel row or column of a triangle's bounding box on one axis:
/// the least vertex coordinate, clamped at zero, in whole pixels.
pub open spec fn bbox_lo(c0: int, c1: int, c2: int) -> int {
    let m = min3(c0, c1, c2);
    if m < 0 {
        0
    } else {
        m / (SUBPIXEL as int)
    }
}

/// Last pixel row or column of a triangle's bounding box on one axis: the
/// greatest vertex coordinate in whole pixels (zero when negative), clamped
/// to the last of `size` pixels.
pub open spec fn bbox_hi(c0: int, c1: int, c2: int, size: int) -> int {
    let m = max3(c0, c1, c2);
    let p = if m < 0 {
        0
    } else {
        m / (SUBPIXEL as int)
    };
    if p > size - 1 {
        size - 1
    } else {
        p
    }
}

/// Whether pixel `(x, y)` lies in the bounding box of the triangle, clamped
/// to a `width` x `height` framebuffer.
pub open spec fn in_bbox(
    a: ScreenPos,
    b: ScreenPos,
    c: ScreenPos,
    width: int,
    height: int,
    x: int,
    y: int,
) -> bool {
    &&& bbox_lo(a.x as int, b.x as int, c.x as int) <= x <= bbox_hi(
        a.x as int,
        b.x as int,
        c.x as int,
        width,
    )
    &&& bbox_lo(a.y as int, b.y as int, c.y as int) <= y <= bbox_hi(
        a.y as int,
        b.y as int,
        c.y as int,
        height,
    )
}

/// Whether the triangle covers the centre of pixel `(x, y)`.
pub open spec fn covers_pixel(a: ScreenPos, b: ScreenPos, c: ScreenPos, x: int, y: int) -> bool {
    covers(a, b, c, x * SUBPIXEL, y * SUBPIXEL)
}

/// The triangle's depth at pixel `(x, y)`, interpolated from its vertices.
pub open spec fn frag_depth(a: ScreenPos, b: ScreenPos, c: ScreenPos, x: int, y: int) -> int {
    interpolate_spec(
        weights(a, b, c, x * SUBPIXEL, y * SUBPIXEL)->Some_0,
        a.z as int,
        b.z as int,
        c.z as int,
    )
}

/// The texture coordinate at pixel `(x, y)`, interpolated from the
/// vertices' coordinates `t`.
pub open spec fn frag_tex(
    a: ScreenPos,
    b: ScreenPos,
    c: ScreenPos,
    t: [TexCoord; 3],
    x: int,
    y: int,
) -> TexCoord {
    let w = weights(a, b, c, x * SUBPIXEL, y * SUBPIXEL)->Some_0;
    TexCoord {
        u: interpolate_spec(w, t[0].u as int, t[1].u as int, t[2].u as int) as i32,
        v: interpolate_spec(w, t[0].v as int, t[1].v as int, t[2].v as int) as i32,
    }
}

/// Whether all three texture coordinates lie in `[0, TEX_ONE]`.
pub open spec fn tex_coords_in_range(t: [TexCoord; 3]) -> bool {
    tex_coord_in_range(t[0]) && tex_coord_in_range(t[1]) && tex_coord_in_range(t[2])
}

/// The weights of a covered point are non-negative, sum to their
/// denominator, and that denominator is positive.
proof fn lemma_covered_weights(a: ScreenPos, b: ScreenPos, c: ScreenPos, px: int, py: int)
    requires
        covers(a, b, c, px, py),
    ensures
        ({
            let w = weights(a, b, c, px, py)->Some_0;
            &&& w.0 >= 0
            &&& w.1 >= 0
            &&& w.2 >= 0
            &&& w.3 > 0
            &&& w.0 + w.1 + w.2 == w.3
        }),
{
}

/// The depth of a covered pixel lies between the vertex depths.
proof fn lemma_frag_depth_bounds(a: ScreenPos, b: ScreenPos, c: ScreenPos, x: int, y: int)
    requires
        covers_pixel(a, b, c, x, y),
    ensures
        min3(a.z as int, b.z as int, c.z as int) <= frag_depth(a, b, c, x, y) <= max3(
            a.z as int,
            b.z as int,
            c.z as int,
        ),
{
    lemma_covered_weights(a, b, c, x * SUBPIXEL, y * SUBPIXEL);
    lemma_interpolate_bounds(
        weights(a, b, c, x * SUBPIXEL, y * SUBPIXEL)->Some_0,
        a.z as int,
        b.z as int,
        c.z as int,
        min3(a.z as int, b.z as int, c.z as int),
        max3(a.z as int, b.z as int, c.z as int),
    );
}

/// Two rasterizers with the same setup that agree on the depth and colour
/// of every pixel have equal buffers.
pub proof fn lemma_same_pixels_same_buffers(r1: Rasterizer, r2: Rasterizer)
    requires
        r1.wf(),
        r2.wf(),
        r1.same_setup(&r2),
        forall|x: int, y: int| r1.on_screen(x, y) ==> #[trigger] r1.depth_at(x, y) == r2.depth_at(x, y),
        forall|x: int, y: int| r1.on_screen(x, y) ==> #[trigger] r1.pixel(x, y) == r2.pixel(x, y),
    ensures
        r1.frame().colors() == r2.frame().colors(),
        r1.frame().depths() == r2.frame().depths(),
{
    let w = r1.spec_width();
    let h = r1.spec_height();
    assert forall|i: int| 0 <= i < w * h implies r1.frame().colors()[i] == r2.frame().colors()[i]
        && r1.frame().depths()[i] == r2.frame().depths()[i] by {
        vstd::arithmetic::div_mod::lemma_fundamental_div_mod(i, w);
        let x = i % w;
        let sy = i / w;
        assert(0 <= sy < h) by {
            vstd::arithmetic::div_mod::lemma_div_pos_is_pos(i, w);
            if sy >= h {
                assert(w * sy >= w * h) by (nonlinear_arith)
                    requires
                        sy >= h,
                        w > 0,
                ;
            }
        }
        assert(i == x + sy * w) by (nonlinear_arith)
            requires
                i == w * sy + x,
        ;
        assert(r1.depth_at(x, sy) == r2.depth_at(x, sy));
        let y = storage_row(r1.origin(), h, sy);
        assert(storage_row(r1.origin(), h, y) == sy);
        assert(r1.pixel(x, y) == r2.pixel(x, y));
    }
    assert(r1.frame().colors() =~= r2.frame().colors());
    assert(r1.frame().depths() =~= r2.frame().depths());
}

/// On a framebuffer whose stored depths all lie below every vertex depth
/// (as after clearing to the least depth), the pixels that a triangle
/// fills are exactly those of its clamped bounding box whose centres have
/// no negative barycentric weight.
pub proof fn lemma_fill_is_coverage(
    before: Rasterizer,
    after: Rasterizer,
    p: [ScreenPos; 3],
    t: [TexCoord; 3],
    texture: Texture,
)
    requires
        before.triangle_drawn(&after, p, t, &texture),
        forall|x: int, y: int|
            before.on_screen(x, y) ==> #[trigger] before.depth_at(x, y) < min3(
                p[0].z as int,
                p[1].z as int,
                p[2].z as int,
            ),
    ensures
        forall|x: int, y: int|
            #![trigger after.depth_at(x, y)]
            #![trigger after.pixel(x, y)]
            before.on_screen(x, y) ==> if in_bbox(
                p[0],
                p[1],
                p[2],
                before.spec_width(),
                before.spec_height(),
                x,
                y,
            ) && covers_pixel(p[0], p[1], p[2], x, y) {
                &&& after.depth_at(x, y) == frag_depth(p[0], p[1], p[2], x, y)
                &&& after.pixel(x, y) == packed(
                    texture.sample(frag_tex(p[0], p[1], p[2], t, x, y)),
                )
            } else {
                &&& after.depth_at(x, y) == before.depth_at(x, y)
                &&& after.pixel(x, y) == before.pixel(x, y)
            },
{
    assert forall|x: int, y: int|
        #![trigger after.depth_at(x, y)]
        #![trigger after.pixel(x, y)]
        before.on_screen(x, y) implies (if in_bbox(
            p[0],
            p[1],
            p[2],
            before.spec_width(),
            before.spec_height(),
            x,
            y,
        ) && covers_pixel(p[0], p[1], p[2], x, y) {
            &&& after.depth_at(x, y) == frag_depth(p[0], p[1], p[2], x, y)
            &&& after.pixel(x, y) == packed(
                texture.sample(frag_tex(p[0], p[1], p[2], t, x, y)),
            )
        } else {
            &&& after.depth_at(x, y) == before.depth_at(x, y)
            &&& after.pixel(x, y) == before.pixel(x, y)
        }) by {
        if covers_pixel(p[0], p[1], p[2], x, y) {
            lemma_frag_depth_bounds(p[0], p[1], p[2], x, y);
            assert(before.depth_at(x, y) < min3(p[0].z as int, p[1].z as int, p[2].z as int));
        }
    }
}

/// Drawing the same triangle a second time changes nothing: every pixel
/// it wrote now holds its depth, which does not beat itself.
pub proof fn lemma_redraw_changes_nothing(
    before: Rasterizer,
    mid: Rasterizer,
    after: Rasterizer,
    p: [ScreenPos; 3],
    t: [TexCoord; 3],
    texture: Texture,
)
    requires
        before.wf(),
        before.triangle_drawn(&mid, p, t, &texture),
        mid.triangle_drawn(&after, p, t, &texture),
    ensures
        after.frame().colors() == mid.frame().colors(),
        after.frame().depths() == mid.frame().depths(),
{
    assert forall|x: int, y: int| mid.on_screen(x, y) implies !mid.triangle_writes(p, x, y) by {
        if covers_pixel(p[0], p[1], p[2], x, y) {
            lemma_frag_depth_bounds(p[0], p[1], p[2], x, y);
        }
        assert(before.on_screen(x, y));
        assert(mid.depth_at(x, y) == if before.triangle_writes(p, x, y) {
            frag_depth(p[0], p[1], p[2], x, y) as i32
        } else {
            before.depth_at(x, y)
        });
    }
    assert forall|x: int, y: int| after.on_screen(x, y) implies #[trigger] after.depth_at(x, y)
        == mid.depth_at(x, y) by {
        assert(mid.on_screen(x, y));
    }
    assert forall|x: int, y: int| after.on_screen(x, y) implies #[trigger] after.pixel(x, y)
        == mid.pixel(x, y) by {
        assert(mid.on_screen(x, y));
    }
    lemma_same_pixels_same_buffers(after, mid);
}

/// A degenerate triangle, such as one with three collinear vertices, draws
/// nothing.
pub proof fn lemma_degenerate_draws_nothing(
    before: Rasterizer,
    after: Rasterizer,
    p: [ScreenPos; 3],
    t: [TexCoord; 3],
    texture: Texture,
)
    requires
        before.wf(),
        before.triangle_drawn(&after, p, t, &texture),
        is_degenerate(p[0], p[1], p[2]),
    ensures
        after.frame().colors() == before.frame().colors(),
        after.frame().depths() == before.frame().depths(),
{
    assert forall|x: int, y: int| after.on_screen(x, y) implies #[trigger] after.depth_at(x, y)
        == before.depth_at(x, y) by {
        assert(before.on_screen(x, y));
    }
    assert forall|x: int, y: int| after.on_screen(x, y) implies #[trigger] after.pixel(x, y)
        == before.pixel(x, y) by {
        assert(before.on_screen(x, y));
    }
    lemma_same_pixels_same_buffers(after, before);
}

/// Three collinear vertices make a degenerate triangle.
pub proof fn lemma_collinear_is_degenerate(a: ScreenPos, b: ScreenPos, c: ScreenPos)
    requires
        twice_area(a, b, c) == 0,
    ensures
        is_degenerate(a, b, c),
{
}

/// First pixel of a bounding box on one axis; see `bbox_lo`.
pub(crate) fn box_lo(c0: i32, c1: i32, c2: i32) -> (r: i64)
    ensures
        r == bbox_lo(c0 as int, c1 as int, c2 as int),
        r >= 0,
{
    let m = if c0 <= c1 && c0 <= c2 {
        c0
    } else if c1 <= c2 {
        c1
    } else {
        c2
    };
    if m < 0 {
        0
    } else {
        (m / SUBPIXEL) as i64
    }
}

/// Last pixel of a bounding box on one axis of `size` pixels; see
/// `bbox_hi`.
pub(crate) fn box_hi(c0: i32, c1: i32, c2: i32, size: i64) -> (r: i64)
    requires
        0 <= size <= u16::MAX,
    ensures
        r == bbox_hi(c0 as int, c1 as int, c2 as int, size as int),
        r < size,
{
    let m = if c0 >= c1 && c0 >= c2 {
        c0
    } else if c1 >= c2 {
        c1
    } else {
        c2
    };
    let p = if m < 0 {
        0
    } else {
        (m / SUBPIXEL) as i64
    };
    if p > size - 1 {
        size - 1
    } else {
        p
    }
}

} // verus!
