use tinyrender::{RenderError, TexCoord, Texture, TEX_ONE};

const RED: (u8, u8, u8) = (255, 0, 0);
const GREEN: (u8, u8, u8) = (0, 255, 0);
const BLUE: (u8, u8, u8) = (0, 0, 255);
const WHITE: (u8, u8, u8) = (255, 255, 255);

/// A 2 x 2 image: red and green on the top row, blue and white below.
fn quad() -> Texture {
    let data = vec![
        255, 0, 0, 255, 0, 255, 0, 255, //
        0, 0, 255, 255, 255, 255, 255, 255,
    ];
    Texture::from_rgba(2, 2, data).unwrap()
}

#[test]
fn origin_samples_bottom_left() {
    assert_eq!(quad().color(TexCoord::new(0, 0)), Ok(BLUE));
}

#[test]
fn one_one_samples_top_right() {
    assert_eq!(quad().color(TexCoord::new(TEX_ONE, TEX_ONE)), Ok(GREEN));
}

#[test]
fn other_corners() {
    let t = quad();
    assert_eq!(t.color(TexCoord::new(0, TEX_ONE)), Ok(RED));
    assert_eq!(t.color(TexCoord::new(TEX_ONE, 0)), Ok(WHITE));
}

#[test]
fn nearest_neighbour_uses_floor() {
    let t = quad();
    // u = 0.5 gives column floor(2 * 0.5) = 1; v = 0.5 gives row floor(2 - 1) = 1.
    assert_eq!(t.color(TexCoord::new(TEX_ONE / 2, TEX_ONE / 2)), Ok(WHITE));
    // just below one half stays in the first column and the bottom row.
    assert_eq!(t.color(TexCoord::new(TEX_ONE / 2 - 1, TEX_ONE / 2 - 1)), Ok(BLUE));
    // v just above one half reaches the top row.
    assert_eq!(t.color(TexCoord::new(0, TEX_ONE / 2 + 1)), Ok(RED));
}

#[test]
fn coordinates_outside_unit_range_are_errors() {
    let t = quad();
    assert_eq!(t.color(TexCoord::new(-1, 0)), Err(RenderError::TexCoordOutOfRange));
    assert_eq!(t.color(TexCoord::new(0, TEX_ONE + 1)), Err(RenderError::TexCoordOutOfRange));
}

#[test]
fn mismatched_image_data_is_rejected() {
    assert_eq!(Texture::from_rgba(2, 2, vec![0; 15]).err(), Some(RenderError::BadImageSize));
    assert_eq!(Texture::from_rgba(0, 0, vec![]).err(), Some(RenderError::BadImageSize));
    let t = Texture::from_rgba(1, 3, vec![0; 12]).unwrap();
    assert_eq!(t.width(), 1);
    assert_eq!(t.height(), 3);
}
