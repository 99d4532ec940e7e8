use tinyrenderer::basetype::Bbox2;
use tinyrenderer::fixed::SCALE;
use tinyrenderer::line::clip_line;
use tinyrenderer::vector::Vec2;

const HALF: i64 = SCALE / 2;

#[test]
fn test_clip_line() {
    let bbox = Bbox2::new(0, SCALE, 0, SCALE);
    let p_0 = Vec2::new(HALF, HALF);
    let p_1 = Vec2::new(HALF, SCALE + HALF);
    let (p_0, p_1) = clip_line(&p_0, &p_1, &bbox).unwrap();
    assert_eq!(p_0, Vec2::new(HALF, HALF));
    assert_eq!(p_1, Vec2::new(HALF, SCALE));
    let p_0 = Vec2::new(-SCALE, -SCALE);
    let p_1 = Vec2::new(2 * SCALE, 2 * SCALE);
    let (p_0, p_1) = clip_line(&p_0, &p_1, &bbox).unwrap();
    assert_eq!(p_0, Vec2::new(0, 0));
    assert_eq!(p_1, Vec2::new(SCALE, SCALE));
}

#[test]
fn clip_line_rejects_shared_side() {
    let bbox = Bbox2::new(0, SCALE, 0, SCALE);
    // Both endpoints left of the box.
    let r = clip_line(&Vec2::new(-SCALE, 0), &Vec2::new(-HALF, SCALE), &bbox);
    assert!(r.is_none());
    // Both endpoints above the box.
    let r = clip_line(
        &Vec2::new(0, 2 * SCALE),
        &Vec2::new(SCALE, 3 * SCALE),
        &bbox,
    );
    assert!(r.is_none());
}

#[test]
fn clip_line_keeps_inside_segment() {
    let bbox = Bbox2::new(0, SCALE, 0, SCALE);
    let p_0 = Vec2::new(HALF / 2, HALF);
    let p_1 = Vec2::new(HALF, HALF / 2);
    let (q_0, q_1) = clip_line(&p_0, &p_1, &bbox).unwrap();
    assert_eq!(q_0, p_0);
    assert_eq!(q_1, p_1);
}

#[test]
fn clip_line_horizontal_and_vertical() {
    let bbox = Bbox2::new(0, SCALE, 0, SCALE);
    // A horizontal segment crossing the whole box.
    let (q_0, q_1) = clip_line(
        &Vec2::new(-SCALE, HALF),
        &Vec2::new(2 * SCALE, HALF),
        &bbox,
    )
    .unwrap();
    assert_eq!(q_0, Vec2::new(0, HALF));
    assert_eq!(q_1, Vec2::new(SCALE, HALF));
    // A vertical segment crossing the whole box.
    let (q_0, q_1) = clip_line(
        &Vec2::new(HALF, -SCALE),
        &Vec2::new(HALF, 2 * SCALE),
        &bbox,
    )
    .unwrap();
    assert_eq!(q_0, Vec2::new(HALF, 0));
    assert_eq!(q_1, Vec2::new(HALF, SCALE));
}
