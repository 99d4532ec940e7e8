use tinyrenderer::color::Color;
use tinyrenderer::fixed::SCALE;
use tinyrenderer::interpolate::{
    barycentric_interpolate, linear_interpolate, BaryCoord, Interpolate, LinearCoord,
};
use tinyrenderer::vector::Vec4;

/// A user-defined varying payload: a nested structure delegating field by
/// field, as a shader author would write it.
#[derive(Debug, Clone, Copy, PartialEq)]
struct Varying {
    color: Color,
    height: i64,
}

impl Interpolate for Varying {
    fn linear_interpolate(v_0: &Varying, v_1: &Varying, linear_coord: &LinearCoord) -> Varying {
        Varying {
            color: Color::linear_interpolate(&v_0.color, &v_1.color, linear_coord),
            height: i64::linear_interpolate(&v_0.height, &v_1.height, linear_coord),
        }
    }

    fn barycentric_interpolate(
        v_0: &Varying,
        v_1: &Varying,
        v_2: &Varying,
        bary_coord: &BaryCoord,
    ) -> Varying {
        Varying {
            color: Color::barycentric_interpolate(&v_0.color, &v_1.color, &v_2.color, bary_coord),
            height: i64::barycentric_interpolate(
                &v_0.height,
                &v_1.height,
                &v_2.height,
                bary_coord,
            ),
        }
    }
}

#[test]
fn linear_identity_on_scalars() {
    // Blending a value with itself gives it back exactly, whatever the
    // (well-formed) weights.
    let coords = [
        LinearCoord::new(0, SCALE),
        LinearCoord::new(SCALE, 0),
        LinearCoord::new(12345, SCALE - 12345),
    ];
    for c in coords.iter() {
        assert_eq!(linear_interpolate(&42i64, &42i64, c), 42);
        assert_eq!(linear_interpolate(&-98765i64, &-98765i64, c), -98765);
    }
}

#[test]
fn barycentric_identity_on_scalars() {
    let w = BaryCoord::new(SCALE / 4, SCALE / 4, SCALE / 2);
    assert_eq!(barycentric_interpolate(&7777i64, &7777i64, &7777i64, &w), 7777);
}

#[test]
fn identity_on_nested_structures() {
    let v = Varying { color: Color::new(SCALE / 3, SCALE / 5, SCALE / 7, SCALE), height: -321 };
    let lc = LinearCoord::new(SCALE / 3, SCALE - SCALE / 3);
    let bc = BaryCoord::new(SCALE / 5, SCALE / 5, SCALE - 2 * (SCALE / 5));
    assert_eq!(Varying::linear_interpolate(&v, &v, &lc), v);
    assert_eq!(Varying::barycentric_interpolate(&v, &v, &v, &bc), v);
}

#[test]
fn interpolation_blends_between_values() {
    // Half-and-half blending of 0 and SCALE gives the midpoint.
    let mid = LinearCoord::new(SCALE / 2, SCALE / 2);
    assert_eq!(linear_interpolate(&0i64, &SCALE, &mid), SCALE / 2);
    // A vector payload blends component-wise.
    let a = Vec4::new(0, 100, -100, SCALE);
    let b = Vec4::new(SCALE, 300, 100, SCALE);
    let r = linear_interpolate(&a, &b, &mid);
    assert_eq!(r, Vec4::new(SCALE / 2, 200, 0, SCALE));
}
