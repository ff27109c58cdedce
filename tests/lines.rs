use tinyrender::{color_to_u32, DrawOrigin, Rasterizer, RenderError};

const INK: (u8, u8, u8) = (10, 20, 30);

fn canvas(width: u16, height: u16) -> Rasterizer {
    let mut r = Rasterizer::new();
    r.resize(width, height);
    r.clear();
    r
}

/// The pixels set to `INK`, as `(x, y)` with the origin at the top left.
fn inked(r: &Rasterizer, width: usize) -> Vec<(usize, usize)> {
    let ink = color_to_u32(INK);
    let mut out = Vec::new();
    for (i, &c) in r.buffer().iter().enumerate() {
        if c == ink {
            out.push((i % width, i / width));
        }
    }
    out.sort();
    out
}

#[test]
fn horizontal_line_stops_before_end() {
    let mut r = canvas(5, 1);
    assert_eq!(r.draw_line((0, 0), (3, 0), INK), Ok(()));
    assert_eq!(inked(&r, 5), vec![(0, 0), (1, 0), (2, 0)]);
}

#[test]
fn shallow_line_follows_bresenham() {
    let mut r = canvas(4, 2);
    assert_eq!(r.draw_line((0, 0), (3, 1), INK), Ok(()));
    assert_eq!(inked(&r, 4), vec![(0, 0), (1, 0), (2, 1)]);
}

#[test]
fn steep_line_steps_along_y() {
    let mut r = canvas(2, 4);
    assert_eq!(r.draw_line((0, 0), (1, 3), INK), Ok(()));
    assert_eq!(inked(&r, 2), vec![(0, 0), (0, 1), (1, 2)]);
}

#[test]
fn reversed_line_skips_its_start() {
    let mut r = canvas(4, 2);
    assert_eq!(r.draw_line((3, 1), (0, 0), INK), Ok(()));
    assert_eq!(inked(&r, 4), vec![(0, 0), (1, 0), (2, 1)]);
}

#[test]
fn descending_line_steps_down() {
    let mut r = canvas(5, 3);
    assert_eq!(r.draw_line((0, 2), (4, 0), INK), Ok(()));
    assert_eq!(inked(&r, 5), vec![(0, 2), (1, 2), (2, 1), (3, 1)]);
}

#[test]
fn diagonal_line_has_one_pixel_per_step() {
    let mut r = canvas(6, 6);
    assert_eq!(r.draw_line((1, 1), (5, 5), INK), Ok(()));
    assert_eq!(inked(&r, 6), vec![(1, 1), (2, 2), (3, 3), (4, 4)]);
}

#[test]
fn zero_length_line_draws_nothing() {
    let mut r = canvas(3, 3);
    assert_eq!(r.draw_line((1, 1), (1, 1), INK), Ok(()));
    assert!(inked(&r, 3).is_empty());
}

#[test]
fn line_may_end_just_off_the_buffer() {
    let mut r = canvas(4, 1);
    assert_eq!(r.draw_line((0, 0), (4, 0), INK), Ok(()));
    assert_eq!(inked(&r, 4), vec![(0, 0), (1, 0), (2, 0), (3, 0)]);
}

#[test]
fn line_off_the_buffer_is_an_error_and_draws_nothing() {
    let mut r = canvas(4, 1);
    let before = r.buffer().to_vec();
    assert_eq!(r.draw_line((0, 0), (10, 0), INK), Err(RenderError::PixelOutOfBounds));
    assert_eq!(r.buffer(), &before[..]);
}

#[test]
fn bottom_left_origin_flips_lines() {
    let mut r = canvas(4, 2);
    r.set_origin(DrawOrigin::BottomLeft);
    assert_eq!(r.draw_line((0, 0), (3, 1), INK), Ok(()));
    assert_eq!(inked(&r, 4), vec![(0, 1), (1, 1), (2, 0)]);
}
