use tinyrenderer::color::Color;
use tinyrenderer::fixed::SCALE;

#[test]
fn new_clamps_channels() {
    let c = Color::new(-5, SCALE + 7, SCALE / 2, 3 * SCALE);
    assert_eq!(c.r, 0);
    assert_eq!(c.g, SCALE);
    assert_eq!(c.b, SCALE / 2);
    assert_eq!(c.a, SCALE);
}

#[test]
fn new_const_keeps_raw_values() {
    let c = Color::new_const(-5, SCALE + 7, 3, 4);
    assert_eq!((c.r, c.g, c.b, c.a), (-5, SCALE + 7, 3, 4));
}

#[test]
fn default_is_opaque_black() {
    let c = Color::default();
    assert_eq!((c.r, c.g, c.b, c.a), (0, 0, 0, SCALE));
}

#[test]
fn mul_scales_and_keeps_alpha() {
    let c = Color::new(SCALE, SCALE / 2, 0, SCALE).mul(SCALE / 2);
    assert_eq!(c.r, SCALE / 2);
    assert_eq!(c.g, SCALE / 4);
    assert_eq!(c.b, 0);
    assert_eq!(c.a, SCALE);
}

#[test]
fn add_sums_and_keeps_alpha() {
    let a = Color::new(SCALE / 2, SCALE, 0, SCALE / 2);
    let b = Color::new(SCALE / 4, SCALE, SCALE / 8, SCALE);
    let c = a.add(b);
    assert_eq!(c.r, 3 * SCALE / 4);
    assert_eq!(c.g, 2 * SCALE);  // unclamped; Color::new saturates it
    assert_eq!(c.b, SCALE / 8);
    assert_eq!(c.a, SCALE / 2);
    let saturated = Color::new(c.r, c.g, c.b, c.a);
    assert_eq!(saturated.g, SCALE);
}

#[test]
fn new_rand_stays_in_range() {
    // The random color relies on an outside generator; whatever it
    // returns, the channels are unit-range and the color is opaque.
    for _ in 0..32 {
        let c = Color::new_rand();
        assert!(0 <= c.r && c.r <= SCALE);
        assert!(0 <= c.g && c.g <= SCALE);
        assert!(0 <= c.b && c.b <= SCALE);
        assert_eq!(c.a, SCALE);
    }
}
