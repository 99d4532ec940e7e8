use tinyrenderer::basetype::Viewport;
use tinyrenderer::color::Color;
use tinyrenderer::fixed::SCALE;
use tinyrenderer::renderer::Raster;
use tinyrenderer::vector::Vec2;

#[test]
fn new_raster_is_zeroed() {
    let raster = Raster::new(Viewport::new(0, 0, 3, 2));
    assert_eq!(raster.frame_buffer.len(), 3 * 2 * 4);
    assert!(raster.frame_buffer.iter().all(|&b| b == 0));
}

#[test]
fn raster_draw_pixel_writes_rgba_bytes() {
    let mut raster = Raster::new(Viewport::new(0, 0, 2, 2));
    let white = Color::white();
    // Viewport (0, 0) is bottom-left: storage row 1, byte offset (0 + 1*2)*4.
    raster.draw_pixel(&Vec2::new(0, 0), &white);
    assert_eq!(&raster.frame_buffer[8..12], &[255, 255, 255, 255]);
    // Everything else is untouched.
    assert!(raster.frame_buffer[..8].iter().all(|&b| b == 0));
    assert!(raster.frame_buffer[12..].iter().all(|&b| b == 0));
    // Out-of-viewport writes are dropped.
    raster.draw_pixel(&Vec2::new(2, 0), &white);
    raster.draw_pixel(&Vec2::new(0, -1), &white);
    assert_eq!(raster.frame_buffer.iter().filter(|&&b| b != 0).count(), 4);
}

#[test]
fn raster_draw_pixel_rounds_channels() {
    let mut raster = Raster::new(Viewport::new(0, 0, 1, 1));
    let c = Color::new(SCALE / 2, SCALE / 4, 0, SCALE);
    raster.draw_pixel(&Vec2::new(0, 0), &c);
    // 0.5 and 0.25 of 255, rounded to nearest.
    assert_eq!(&raster.frame_buffer[0..4], &[128, 64, 0, 255]);
}

#[test]
fn raster_draw_line_and_clear() {
    let mut raster = Raster::new(Viewport::new(0, 0, 4, 4));
    let red = Color::new(SCALE, 0, 0, SCALE);
    // A diagonal across the viewport.
    raster.draw_line(&Vec2::new(0, 0), &Vec2::new(3 * SCALE, 3 * SCALE), &red);
    // Pixel (0, 0) -> storage row 3; base (0 + 3*4)*4 = 48.
    assert_eq!(&raster.frame_buffer[48..52], &[255, 0, 0, 255]);
    // Pixel (3, 3) -> storage row 0; base (3 + 0*4)*4 = 12.
    assert_eq!(&raster.frame_buffer[12..16], &[255, 0, 0, 255]);
    raster.clear();
    assert!(raster.frame_buffer.iter().all(|&b| b == 0));
}

#[test]
fn raster_with_offset_viewport() {
    let mut raster = Raster::new(Viewport::new(10, 20, 2, 2));
    let white = Color::white();
    // Pixels are addressed in offset coordinates.
    raster.draw_pixel(&Vec2::new(10, 20), &white);
    assert_eq!(&raster.frame_buffer[8..12], &[255, 255, 255, 255]);
    // Coordinates below the offset fall outside.
    raster.draw_pixel(&Vec2::new(0, 0), &white);
    assert_eq!(raster.frame_buffer.iter().filter(|&&b| b != 0).count(), 4);
}
