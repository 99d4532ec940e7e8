use tinyrenderer::basetype::Bbox2;
use tinyrenderer::fixed::SCALE;
use tinyrenderer::triangle::{barycentric, travel_triangle_barycentric};
use tinyrenderer::vector::Vec2;

fn px(x: i64, y: i64) -> Vec2 {
    Vec2::new(x * SCALE, y * SCALE)
}

#[test]
fn barycentric_at_vertex() {
    // At the first vertex the weights are exactly (1, 0, 0).
    let w = barycentric(&px(0, 0), &px(4, 0), &px(0, 4), &px(0, 0)).unwrap();
    assert_eq!(w.w_0, SCALE);
    assert_eq!(w.w_1, 0);
    assert_eq!(w.w_2, 0);
}

#[test]
fn barycentric_at_centroid() {
    // At the centroid every weight is a third, up to fixed-point rounding.
    let third = 4 * SCALE / 3;
    let w = barycentric(&px(0, 0), &px(4, 0), &px(0, 4), &Vec2::new(third, third)).unwrap();
    let tol = SCALE / 1000;
    assert!((w.w_0 - SCALE / 3).abs() <= tol);
    assert!((w.w_1 - SCALE / 3).abs() <= tol);
    assert!((w.w_2 - SCALE / 3).abs() <= tol);
    assert_eq!(w.w_0 + w.w_1 + w.w_2, SCALE);
}

#[test]
fn barycentric_outside_and_degenerate() {
    // A point clearly outside yields no weights.
    assert!(barycentric(&px(0, 0), &px(4, 0), &px(0, 4), &px(5, 5)).is_none());
    // A degenerate (collinear) triangle yields no weights anywhere.
    assert!(barycentric(&px(0, 0), &px(2, 2), &px(4, 4), &px(1, 1)).is_none());
}

#[test]
fn barycentric_on_edge_included() {
    // A point exactly on an edge is inside (inclusive boundary).
    let w = barycentric(&px(0, 0), &px(4, 0), &px(0, 4), &px(2, 2)).unwrap();
    assert_eq!(w.w_0, 0);
    assert_eq!(w.w_1, SCALE / 2);
    assert_eq!(w.w_2, SCALE / 2);
}

#[test]
fn travel_covers_exactly_the_inside_pixels() {
    let clip = Bbox2::new(-10 * SCALE, 10 * SCALE, -10 * SCALE, 10 * SCALE);
    let frags = travel_triangle_barycentric(&px(0, 0), &px(4, 0), &px(0, 4), &clip);
    // The pixels with x >= 0, y >= 0, x + y <= 4: 15 of them.
    assert_eq!(frags.len(), 15);
    for (p, w) in frags.iter() {
        assert!(p.x >= 0 && p.y >= 0 && p.x + p.y <= 4);
        assert_eq!(w.w_0 + w.w_1 + w.w_2, SCALE);
        assert!(w.w_0 >= 0 && w.w_1 >= 0 && w.w_2 >= 0);
    }
    // The pixel (5, 5) is outside and does not appear.
    assert!(frags.iter().all(|(p, _)| !(p.x == 5 && p.y == 5)));
}

#[test]
fn travel_respects_clip_box() {
    // Clipping to [0, 1]^2 in pixel units keeps only the four corner
    // pixels of that square that are inside the triangle.
    let clip = Bbox2::new(0, SCALE, 0, SCALE);
    let frags = travel_triangle_barycentric(&px(0, 0), &px(4, 0), &px(0, 4), &clip);
    assert_eq!(frags.len(), 4);
    for (p, _) in frags.iter() {
        assert!(0 <= p.x && p.x <= 1 && 0 <= p.y && p.y <= 1);
    }
}

#[test]
fn travel_degenerate_yields_nothing() {
    let clip = Bbox2::new(-10 * SCALE, 10 * SCALE, -10 * SCALE, 10 * SCALE);
    let frags = travel_triangle_barycentric(&px(0, 0), &px(2, 2), &px(4, 4), &clip);
    assert_eq!(frags.len(), 0);
}
