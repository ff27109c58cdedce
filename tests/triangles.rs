use tinyrender::{
    barycentric, color_to_u32, interpolate, Barycentric, DrawOrigin, Rasterizer, RenderError,
    ScreenPos, TexCoord, Texture, SUBPIXEL, TEX_ONE,
};

const CLEAR: (u8, u8, u8) = (81, 141, 237);
const RED: (u8, u8, u8) = (255, 0, 0);
const GREEN: (u8, u8, u8) = (0, 255, 0);
const BLUE: (u8, u8, u8) = (0, 0, 255);
const WHITE: (u8, u8, u8) = (255, 255, 255);

/// A 2 x 2 image: red and green on the top row, blue and white below.
fn quad() -> Texture {
    let data = vec![
        255, 0, 0, 255, 0, 255, 0, 255, //
        0, 0, 255, 255, 255, 255, 255, 255,
    ];
    Texture::from_rgba(2, 2, data).unwrap()
}

fn px(x: i32, y: i32, z: i32) -> ScreenPos {
    ScreenPos::new(x * SUBPIXEL, y * SUBPIXEL, z)
}

fn canvas(width: u16, height: u16) -> Rasterizer {
    let mut r = Rasterizer::new();
    r.resize(width, height);
    r.set_clear_color(CLEAR);
    r.clear();
    r
}

/// Texture coordinates that all sample the bottom-left (blue) pixel.
fn flat_blue() -> [TexCoord; 3] {
    [TexCoord::new(0, 0); 3]
}

#[test]
fn barycentric_weights_are_exact() {
    let a = px(0, 0, 0);
    let b = px(3, 0, 0);
    let c = px(0, 3, 0);
    let w = barycentric(a, b, c, px(1, 1, 0)).unwrap();
    let n = 768 * 256;
    assert_eq!(w, Barycentric { w0: 589_824 - 2 * n, w1: n, w2: n, den: 589_824 });
    // a point outside has a negative weight
    let w = barycentric(a, b, c, px(3, 3, 0)).unwrap();
    assert!(w.w0 < 0);
    assert_eq!(w.w1, 768 * 768);
    assert_eq!(w.w2, 768 * 768);
}

#[test]
fn collinear_points_have_no_weights() {
    let a = px(0, 0, 0);
    let b = px(1, 1, 0);
    let c = px(2, 2, 0);
    assert_eq!(barycentric(a, b, c, px(1, 1, 0)), None);
}

#[test]
fn tiny_triangle_counts_as_degenerate() {
    // |u.z| = 25 * 26 = 650 square sub-pixels, below 0.01 square pixels
    let a = ScreenPos::new(0, 0, 0);
    let b = ScreenPos::new(25, 0, 0);
    let c = ScreenPos::new(0, 26, 0);
    assert_eq!(barycentric(a, b, c, a), None);
    // |u.z| = 26 * 26 = 676 is above the limit
    let b = ScreenPos::new(26, 0, 0);
    assert!(barycentric(a, b, c, a).is_some());
}

#[test]
fn interpolation_rounds_down() {
    let w = Barycentric { w0: 1, w1: 1, w2: 2, den: 4 };
    assert_eq!(interpolate(&w, 0, 4, 8), 5);
    let w = Barycentric { w0: 1, w1: 1, w2: 1, den: 3 };
    assert_eq!(interpolate(&w, -1, 0, 0), -1);
    assert_eq!(interpolate(&w, 1, 0, 0), 0);
    assert_eq!(interpolate(&w, i32::MIN, i32::MIN, i32::MIN), i32::MIN);
    assert_eq!(interpolate(&w, i32::MAX, i32::MAX, i32::MAX), i32::MAX);
}

#[test]
fn triangle_fills_covered_pixels() {
    let mut r = canvas(4, 4);
    let tri = [px(0, 0, 10), px(3, 0, 10), px(0, 3, 10)];
    assert_eq!(r.draw_triangle(tri, flat_blue(), &quad()), Ok(()));
    let blue = color_to_u32(BLUE);
    let clear = color_to_u32(CLEAR);
    for y in 0..4usize {
        for x in 0..4usize {
            let expected = if x + y <= 3 { blue } else { clear };
            assert_eq!(r.buffer()[x + 4 * y], expected, "pixel ({}, {})", x, y);
        }
    }
}

#[test]
fn triangle_is_clipped_to_the_buffer() {
    let mut r = canvas(3, 3);
    let tri = [px(-5, -5, 1), px(20, -5, 1), px(-5, 20, 1)];
    assert_eq!(r.draw_triangle(tri, flat_blue(), &quad()), Ok(()));
    assert_eq!(r.buffer(), &[color_to_u32(BLUE); 9][..]);
}

#[test]
fn nearer_triangle_wins_either_order() {
    let tri_far = [px(0, 0, 5), px(3, 0, 5), px(0, 3, 5)];
    let tri_near = [px(0, 0, 9), px(3, 0, 9), px(0, 3, 9)];
    let white = [TexCoord::new(TEX_ONE, 0); 3];
    let mut r = canvas(4, 4);
    r.draw_triangle(tri_far, flat_blue(), &quad()).unwrap();
    r.draw_triangle(tri_near, white, &quad()).unwrap();
    assert_eq!(r.buffer()[0], color_to_u32(WHITE));
    let mut r = canvas(4, 4);
    r.draw_triangle(tri_near, white, &quad()).unwrap();
    r.draw_triangle(tri_far, flat_blue(), &quad()).unwrap();
    assert_eq!(r.buffer()[0], color_to_u32(WHITE));
}

#[test]
fn equal_depth_does_not_overwrite() {
    let tri = [px(0, 0, 5), px(3, 0, 5), px(0, 3, 5)];
    let mut r = canvas(4, 4);
    r.draw_triangle(tri, flat_blue(), &quad()).unwrap();
    r.draw_triangle(tri, [TexCoord::new(TEX_ONE, 0); 3], &quad()).unwrap();
    assert_eq!(r.buffer()[0], color_to_u32(BLUE));
}

#[test]
fn drawing_twice_changes_nothing() {
    let tri = [px(0, 0, 3), px(3, 1, 7), px(1, 3, -2)];
    let tex = [TexCoord::new(0, 0), TexCoord::new(TEX_ONE, 0), TexCoord::new(0, TEX_ONE)];
    let mut r = canvas(4, 4);
    r.draw_triangle(tri, tex, &quad()).unwrap();
    let once = r.buffer().to_vec();
    r.draw_triangle(tri, tex, &quad()).unwrap();
    assert_eq!(r.buffer(), &once[..]);
}

#[test]
fn collinear_triangle_draws_nothing() {
    let mut r = canvas(4, 4);
    let before = r.buffer().to_vec();
    let tri = [px(0, 0, 1), px(1, 1, 1), px(3, 3, 1)];
    assert_eq!(r.draw_triangle(tri, flat_blue(), &quad()), Ok(()));
    assert_eq!(r.buffer(), &before[..]);
}

#[test]
fn texture_coordinates_are_interpolated() {
    // u runs from 0 at x = 0 to 1 at x = 4; v is one everywhere (top row).
    let mut r = canvas(4, 1);
    let tri = [px(0, 0, 1), px(4, 0, 1), px(0, 4, 1)];
    let tex = [TexCoord::new(0, TEX_ONE), TexCoord::new(TEX_ONE, TEX_ONE), TexCoord::new(0, TEX_ONE)];
    r.draw_triangle(tri, tex, &quad()).unwrap();
    let red = color_to_u32(RED);
    let green = color_to_u32(GREEN);
    assert_eq!(r.buffer(), &[red, red, green, green][..]);
}

#[test]
fn texture_coordinate_out_of_range_is_an_error() {
    let mut r = canvas(4, 4);
    let before = r.buffer().to_vec();
    let tri = [px(0, 0, 1), px(3, 0, 1), px(0, 3, 1)];
    let tex = [TexCoord::new(0, 0), TexCoord::new(TEX_ONE + 1, 0), TexCoord::new(0, 0)];
    assert_eq!(r.draw_triangle(tri, tex, &quad()), Err(RenderError::TexCoordOutOfRange));
    assert_eq!(r.buffer(), &before[..]);
}

#[test]
fn bottom_left_origin_flips_colour_rows() {
    let mut r = canvas(4, 4);
    r.set_origin(DrawOrigin::BottomLeft);
    let tri = [px(0, 0, 10), px(3, 0, 10), px(0, 3, 10)];
    r.draw_triangle(tri, flat_blue(), &quad()).unwrap();
    let blue = color_to_u32(BLUE);
    let clear = color_to_u32(CLEAR);
    for y in 0..4usize {
        for x in 0..4usize {
            let expected = if x + (3 - y) <= 3 { blue } else { clear };
            assert_eq!(r.buffer()[x + 4 * y], expected, "pixel ({}, {})", x, y);
        }
    }
}

#[test]
fn clear_fills_both_buffers() {
    let mut r = Rasterizer::new();
    r.resize(3, 2);
    r.set_clear_color((1, 2, 3));
    r.set_depth_value(7);
    r.clear();
    assert_eq!(r.buffer(), &[0x0001_0203u32; 6][..]);
    // a triangle at depth 7 does not beat the cleared depth; at 8 it does
    let tri = [px(0, 0, 7), px(5, 0, 7), px(0, 5, 7)];
    r.draw_triangle(tri, flat_blue(), &quad()).unwrap();
    assert_eq!(r.buffer()[0], 0x0001_0203);
    let tri = [px(0, 0, 8), px(5, 0, 8), px(0, 5, 8)];
    r.draw_triangle(tri, flat_blue(), &quad()).unwrap();
    assert_eq!(r.buffer()[0], color_to_u32(BLUE));
}

#[test]
fn set_pixel_checks_bounds_and_origin() {
    let mut r = canvas(2, 2);
    assert_eq!(r.set_pixel((0, 0), RED), Ok(()));
    assert_eq!(r.buffer()[0], color_to_u32(RED));
    r.set_origin(DrawOrigin::BottomLeft);
    assert_eq!(r.set_pixel((1, 0), GREEN), Ok(()));
    assert_eq!(r.buffer()[3], color_to_u32(GREEN));
    assert_eq!(r.set_pixel((0, 2), GREEN), Err(RenderError::PixelOutOfBounds));
    let mut empty = Rasterizer::new();
    assert_eq!(empty.set_pixel((0, 0), RED), Err(RenderError::PixelOutOfBounds));
}

#[test]
fn rasterizer_resize_is_exact_and_idempotent() {
    let mut r = canvas(3, 2);
    r.set_pixel((1, 1), RED).unwrap();
    let before = r.buffer().to_vec();
    r.resize(3, 2);
    assert_eq!(r.buffer(), &before[..]);
    r.resize(5, 4);
    assert_eq!(r.buffer().len(), 20);
}
