use tinyrenderer::fixed::SCALE;
use tinyrenderer::line::travel_line_bresenham;
use tinyrenderer::vector::Vec2;

fn px(x: i64, y: i64) -> Vec2 {
    Vec2::new(x * SCALE, y * SCALE)
}

fn check_walk(x_0: i64, y_0: i64, x_1: i64, y_1: i64) {
    let pixels = travel_line_bresenham(&px(x_0, y_0), &px(x_1, y_1));
    let dx = (x_1 - x_0).abs();
    let dy = (y_1 - y_0).abs();
    // Exactly max(|dx|, |dy|) + 1 pixels.
    assert_eq!(pixels.len() as i64, dx.max(dy) + 1);
    // Monotonic along the dominant axis, no duplicates.
    for i in 1..pixels.len() {
        if dx >= dy {
            assert_eq!(pixels[i].x, pixels[i - 1].x + 1);
        } else {
            assert_eq!(pixels[i].y, pixels[i - 1].y + 1);
        }
        assert!((pixels[i].x - pixels[i - 1].x).abs() <= 1);
        assert!((pixels[i].y - pixels[i - 1].y).abs() <= 1);
    }
    // The walk covers both endpoints.
    let first = pixels[0];
    let last = pixels[pixels.len() - 1];
    assert!(
        (first == Vec2::new(x_0, y_0) && last == Vec2::new(x_1, y_1))
            || (first == Vec2::new(x_1, y_1) && last == Vec2::new(x_0, y_0))
    );
}

#[test]
fn bresenham_all_octants() {
    // One representative slope in each of the 8 octants.
    check_walk(0, 0, 7, 3);
    check_walk(0, 0, 3, 7);
    check_walk(0, 0, -3, 7);
    check_walk(0, 0, -7, 3);
    check_walk(0, 0, -7, -3);
    check_walk(0, 0, -3, -7);
    check_walk(0, 0, 3, -7);
    check_walk(0, 0, 7, -3);
}

#[test]
fn bresenham_axis_aligned_and_diagonal() {
    check_walk(2, 5, 9, 5);  // horizontal
    check_walk(4, -3, 4, 6);  // vertical
    check_walk(0, 0, 5, 5);  // 45 degrees
    check_walk(5, 5, 0, 0);  // 45 degrees, reversed
    check_walk(3, 3, 3, 3);  // a single point
}

#[test]
fn bresenham_is_direction_independent() {
    // The walk orients itself canonically, so swapping the endpoints
    // changes nothing — not even the emission order.
    for &(x_0, y_0, x_1, y_1) in &[(0, 0, 7, 3), (0, 0, 3, 7), (2, 5, -4, -1), (-3, 4, -3, -2)] {
        let forward = travel_line_bresenham(&px(x_0, y_0), &px(x_1, y_1));
        let backward = travel_line_bresenham(&px(x_1, y_1), &px(x_0, y_0));
        assert_eq!(forward, backward);
    }
}

#[test]
fn bresenham_rounds_endpoints() {
    // Endpoints off pixel centers round to the nearest pixel first.
    let pixels = travel_line_bresenham(
        &Vec2::new(SCALE / 4, SCALE / 4),
        &Vec2::new(3 * SCALE + SCALE / 2, SCALE / 4),
    );
    // (0.25, 0.25) -> (0, 0); (3.5, 0.25) -> (4, 0).
    assert_eq!(pixels.len(), 5);
    assert_eq!(pixels[0], Vec2::new(0, 0));
    assert_eq!(pixels[4], Vec2::new(4, 0));
}
