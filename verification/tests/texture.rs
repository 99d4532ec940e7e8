use tinyrenderer::color::Color;
use tinyrenderer::fixed::SCALE;
use tinyrenderer::texture::{EdgeBehavior, PixelFormat, SamplingMethod, Texture};
use tinyrenderer::vector::Vec2;

fn checkerboard(dim: u32) -> Texture<Color> {
    let mut t = Texture::new(dim, dim, Color::black());
    for y in 0..dim as i64 {
        for x in 0..dim as i64 {
            let c = if (x + y) % 2 == 0 {
                Color::white()
            } else {
                Color::new(SCALE / 4, SCALE / 2, 3 * SCALE / 4, SCALE)
            };
            t.set_texel(&Vec2::new(x, y), c);
        }
    }
    t
}

/// The uv coordinate of the center of texel `x` along an axis of `dim`
/// texels; exact whenever `dim - 1` divides `x * SCALE`.
fn center_uv(x: i64, dim: u32) -> i64 {
    x * SCALE / (dim as i64 - 1)
}

#[test]
fn nearest_at_texel_center_round_trips() {
    let t = checkerboard(5);
    for y in 0..5i64 {
        for x in 0..5i64 {
            let uv = Vec2::new(center_uv(x, 5), center_uv(y, 5));
            let c = t.sample(&uv, SamplingMethod::Nearest, EdgeBehavior::Clamp);
            assert_eq!(c, t.get_texel(&Vec2::new(x, y)));
        }
    }
}

#[test]
fn bilinear_at_texel_center_round_trips() {
    let t = checkerboard(5);
    for y in 0..5i64 {
        for x in 0..5i64 {
            let uv = Vec2::new(center_uv(x, 5), center_uv(y, 5));
            let c = t.sample(&uv, SamplingMethod::Bilinear, EdgeBehavior::Clamp);
            assert_eq!(c, t.get_texel(&Vec2::new(x, y)));
        }
    }
}

#[test]
fn wrap_is_periodic() {
    let t = checkerboard(5);
    // uv = 1.25 behaves exactly like uv = 0.25.
    let wrapped = Vec2::new(SCALE + SCALE / 4, SCALE / 4);
    let plain = Vec2::new(SCALE / 4, SCALE / 4);
    let a = t.sample(&wrapped, SamplingMethod::Nearest, EdgeBehavior::Wrap);
    let b = t.sample(&plain, SamplingMethod::Nearest, EdgeBehavior::Wrap);
    assert_eq!(a, b);
    let a = t.sample(&wrapped, SamplingMethod::Bilinear, EdgeBehavior::Wrap);
    let b = t.sample(&plain, SamplingMethod::Bilinear, EdgeBehavior::Wrap);
    assert_eq!(a, b);
}

#[test]
fn clamp_saturates_out_of_range() {
    let t = checkerboard(5);
    // Far outside on both axes samples the corner texels.
    let c = t.sample(
        &Vec2::new(-3 * SCALE, -3 * SCALE),
        SamplingMethod::Nearest,
        EdgeBehavior::Clamp,
    );
    assert_eq!(c, t.get_texel(&Vec2::new(0, 0)));
    let c = t.sample(
        &Vec2::new(5 * SCALE, 5 * SCALE),
        SamplingMethod::Nearest,
        EdgeBehavior::Clamp,
    );
    assert_eq!(c, t.get_texel(&Vec2::new(4, 4)));
}

#[test]
fn bilinear_blends_neighbors() {
    // A 2x2 texture, black and white along x: sampling the middle of the
    // top row gives the midpoint gray.
    let mut t = Texture::new(2, 2, Color::black());
    t.set_texel(&Vec2::new(1, 0), Color::white());
    t.set_texel(&Vec2::new(1, 1), Color::white());
    let c = t.sample(
        &Vec2::new(SCALE / 2, 0),
        SamplingMethod::Bilinear,
        EdgeBehavior::Clamp,
    );
    assert_eq!(c.r, SCALE / 2);
    assert_eq!(c.g, SCALE / 2);
    assert_eq!(c.b, SCALE / 2);
    assert_eq!(c.a, SCALE);
}

#[test]
fn byte_buffer_round_trip() {
    let bytes: Vec<u8> = vec![
        0, 1, 2, 3, 250, 251, 252, 253, 17, 33, 65, 129, 255, 128, 64, 0,
    ];
    let t = Texture::from_vec_u8(&bytes, 2, 2);
    assert_eq!(t.to_vec_u8(), bytes);
}

#[test]
fn from_channels_formats() {
    // One gray byte per texel: replicated across the color channels.
    let gray: Vec<u8> = vec![0, 255];
    let t = Texture::from_channels(&gray, 2, 1, PixelFormat::R8);
    let c = t.get_texel(&Vec2::new(0, 0));
    assert_eq!((c.r, c.g, c.b, c.a), (0, 0, 0, SCALE));
    let c = t.get_texel(&Vec2::new(1, 0));
    assert_eq!((c.r, c.g, c.b, c.a), (SCALE, SCALE, SCALE, SCALE));

    // Three bytes per texel: alpha is full.
    let rgb: Vec<u8> = vec![255, 0, 0, 0, 255, 0];
    let t = Texture::from_channels(&rgb, 2, 1, PixelFormat::Rgb8);
    let c = t.get_texel(&Vec2::new(0, 0));
    assert_eq!((c.r, c.g, c.b, c.a), (SCALE, 0, 0, SCALE));
    let c = t.get_texel(&Vec2::new(1, 0));
    assert_eq!((c.r, c.g, c.b, c.a), (0, SCALE, 0, SCALE));
}
