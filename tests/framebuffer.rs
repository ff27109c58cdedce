use tinyrender::{color_to_u32, Framebuffer, RenderError};

#[test]
fn color_is_packed_red_green_blue() {
    assert_eq!(color_to_u32((0x12, 0x34, 0x56)), 0x0012_3456);
    assert_eq!(color_to_u32((255, 0, 0)), 0x00ff_0000);
    assert_eq!(color_to_u32((0, 0, 255)), 0x0000_00ff);
}

#[test]
fn new_framebuffer_is_zeroed() {
    let fb = Framebuffer::new(3, 2);
    assert_eq!(fb.width(), 3);
    assert_eq!(fb.height(), 2);
    assert_eq!(fb.color_buffer(), &[0u32; 6][..]);
    assert_eq!(fb.depth((2, 1)), Ok(0));
}

#[test]
fn set_color_uses_row_major_index() {
    let mut fb = Framebuffer::new(3, 2);
    assert_eq!(fb.set_color((2, 1), 7), Ok(()));
    assert_eq!(fb.set_color_rgb((1, 0), (0x12, 0x34, 0x56)), Ok(()));
    assert_eq!(fb.color_buffer(), &[0, 0x0012_3456, 0, 0, 0, 7][..]);
}

#[test]
fn positions_off_the_buffer_are_errors() {
    let mut fb = Framebuffer::new(3, 2);
    assert_eq!(fb.set_color((3, 0), 1), Err(RenderError::PixelOutOfBounds));
    assert_eq!(fb.set_color_rgb((0, 2), (1, 2, 3)), Err(RenderError::PixelOutOfBounds));
    assert_eq!(fb.set_depth((5, 5), 1), Err(RenderError::PixelOutOfBounds));
    assert_eq!(fb.depth((0, 2)), Err(RenderError::PixelOutOfBounds));
    assert_eq!(fb.color_buffer(), &[0u32; 6][..]);
}

#[test]
fn depth_round_trips() {
    let mut fb = Framebuffer::new(2, 2);
    assert_eq!(fb.set_depth((1, 1), -42), Ok(()));
    assert_eq!(fb.depth((1, 1)), Ok(-42));
    assert_eq!(fb.depth((0, 1)), Ok(0));
}

#[test]
fn fills_cover_every_pixel() {
    let mut fb = Framebuffer::new(2, 2);
    fb.set_color_all(9);
    fb.set_depth_all(i32::MIN);
    assert_eq!(fb.color_buffer(), &[9u32; 4][..]);
    for x in 0..2u16 {
        for y in 0..2u16 {
            assert_eq!(fb.depth((x, y)), Ok(i32::MIN));
        }
    }
    fb.set_color_rgb_all((1, 2, 3));
    assert_eq!(fb.color_buffer(), &[0x0001_0203u32; 4][..]);
}

#[test]
fn resize_sets_exact_length() {
    let mut fb = Framebuffer::new(2, 2);
    fb.resize(4, 5);
    assert_eq!(fb.color_buffer().len(), 20);
    assert_eq!(fb.width(), 4);
    assert_eq!(fb.height(), 5);
    assert_eq!(fb.depth((3, 4)), Ok(0));
    fb.resize(1, 1);
    assert_eq!(fb.color_buffer().len(), 1);
    fb.resize(0, 7);
    assert_eq!(fb.color_buffer().len(), 0);
}

#[test]
fn resize_to_same_size_keeps_contents() {
    let mut fb = Framebuffer::new(2, 3);
    fb.set_color_all(5);
    fb.set_depth_all(11);
    fb.resize(2, 3);
    assert_eq!(fb.color_buffer(), &[5u32; 6][..]);
    assert_eq!(fb.depth((1, 2)), Ok(11));
}

#[test]
fn resize_to_transposed_size_still_reallocates_dimensions() {
    let mut fb = Framebuffer::new(2, 3);
    fb.resize(3, 2);
    assert_eq!(fb.width(), 3);
    assert_eq!(fb.height(), 2);
    assert_eq!(fb.color_buffer().len(), 6);
}
