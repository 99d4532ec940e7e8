//! Line clipping (Cohen–Sutherland) and line scan conversion (Bresenham).

use crate::basetype::Bbox2;
use crate::fixed::{div_floor_i128, round_to_int, COORD_LIMIT, HALF_SCALE, SCALE};
use crate::vector::Vec2;
use vstd::arithmetic::div_mod::{
    lemma_div_is_ordered, lemma_div_multiples_vanish, lemma_div_pos_is_pos,
};
use vstd::arithmetic::mul::lemma_mul_is_commutative;
use vstd::math::{abs, max, min};
use vstd::prelude::*;

verus! {

/// Horizontal part of the Cohen–Sutherland outcode: 1 left of the box,
/// 2 right of it, 0 inside.
pub open spec fn h_code(p: Vec2, bbox: Bbox2) -> int {
    if p.x < bbox.l {
        1
    } else if p.x > bbox.r {
        2
    } else {
        0
    }
}

/// Vertical part of the Cohen–Sutherland outcode: 4 below the box, 8 above
/// it, 0 inside.
pub open spec fn v_code(p: Vec2, bbox: Bbox2) -> int {
    if p.y < bbox.b {
        4
    } else if p.y > bbox.t {
        8
    } else {
        0
    }
}

/// The full outcode; it is 0 exactly when the point is inside the box.
pub open spec fn code_of(p: Vec2, bbox: Bbox2) -> int {
    h_code(p, bbox) + v_code(p, bbox)
}

/// How many of the four box sides have at least one of the two points on
/// their outside.  Each clipping step removes one side for good, so this
/// measure proves that the clipping loop terminates.
pub open spec fn outside_sides(q_0: Vec2, q_1: Vec2, bbox: Bbox2) -> int {
    (if q_0.x < bbox.l || q_1.x < bbox.l {
        1int
    } else {
        0int
    }) + (if q_0.x > bbox.r || q_1.x > bbox.r {
        1int
    } else {
        0int
    }) + (if q_0.y < bbox.b || q_1.y < bbox.b {
        1int
    } else {
        0int
    }) + (if q_0.y > bbox.t || q_1.y > bbox.t {
        1int
    } else {
        0int
    })
}

fn compute_area_code(p: &Vec2, bbox: &Bbox2) -> (c: u8)
    ensures
        c as int == code_of(*p, *bbox),
        c as int == h_code(*p, *bbox) + v_code(*p, *bbox),
{
    let h: u8 = if p.x < bbox.l {
        1
    } else if p.x > bbox.r {
        2
    } else {
        0
    };
    let v: u8 = if p.y < bbox.b {
        4
    } else if p.y > bbox.t {
        8
    } else {
        0
    };
    h + v
}

/// Where the segment from `a` to `b` crosses the fraction `num / den` of the
/// way (floor-rounded); always between `a` and `b`.
pub open spec fn interp_at(a: int, b: int, num: int, den: int) -> int {
    let u = (abs(b - a) as int * abs(num)) / (abs(den) as int);
    if b >= a {
        a + u
    } else {
        a - u
    }
}

/// A crossing fraction in `[0, 1]` keeps the interpolated coordinate
/// between the endpoints.
proof fn lemma_interp_at_between(a: int, b: int, num: int, den: int)
    requires
        den != 0,
        (0 <= num <= den) || (den <= num <= 0),
    ensures
        min(a, b) <= interp_at(a, b, num, den) <= max(a, b),
{
    let da = abs(b - a) as int;
    let na = abs(num) as int;
    let dena = abs(den) as int;
    lemma_div_pos_is_pos(da * na, dena);
    assert(da * na <= da * dena) by (nonlinear_arith)
        requires
            0 <= na <= dena,
            0 <= da;
    lemma_div_is_ordered(da * na, da * dena, dena);
    lemma_mul_is_commutative(da, dena);
    lemma_div_multiples_vanish(da, dena);
}

/// The exact Cohen–Sutherland result on a well-formed box: what the
/// clipping loop computes, written as a recursion.  Each step replaces the
/// outside endpoint of higher outcode priority (top over bottom over right
/// over left) with the segment's crossing of that box side, rounded by
/// [`interp_at`]; the recursion ends with `None` on a shared outside side
/// and with the endpoint pair once both are inside.
pub open spec fn spec_clip(q_0: Vec2, q_1: Vec2, bbox: Bbox2) -> Option<(Vec2, Vec2)>
    decreases outside_sides(q_0, q_1, bbox),
    when bbox.wf()
    via spec_clip_decreases
{
    let c_0 = code_of(q_0, bbox);
    let c_1 = code_of(q_1, bbox);
    if (c_0 >= 8 && c_1 >= 8) || (c_0 >= 4 && c_0 < 8 && c_1 >= 4 && c_1 < 8) || ((c_0 == 2
        || c_0 == 6 || c_0 == 10) && (c_1 == 2 || c_1 == 6 || c_1 == 10)) || ((c_0 == 1 || c_0
        == 5 || c_0 == 9) && (c_1 == 1 || c_1 == 5 || c_1 == 9)) {
        Option::None
    } else if c_0 == 0 && c_1 == 0 {
        Option::Some((q_0, q_1))
    } else {
        let c = if c_1 > c_0 {
            c_1
        } else {
            c_0
        };
        let p = if c >= 8 {
            Vec2 {
                x: interp_at(q_0.x as int, q_1.x as int, bbox.t - q_0.y, q_1.y - q_0.y) as i64,
                y: bbox.t,
            }
        } else if c >= 4 {
            Vec2 {
                x: interp_at(q_0.x as int, q_1.x as int, bbox.b - q_0.y, q_1.y - q_0.y) as i64,
                y: bbox.b,
            }
        } else if c == 2 || c == 6 || c == 10 {
            Vec2 {
                x: bbox.r,
                y: interp_at(q_0.y as int, q_1.y as int, bbox.r - q_0.x, q_1.x - q_0.x) as i64,
            }
        } else {
            Vec2 {
                x: bbox.l,
                y: interp_at(q_0.y as int, q_1.y as int, bbox.l - q_0.x, q_1.x - q_0.x) as i64,
            }
        };
        if c == c_0 {
            spec_clip(p, q_1, bbox)
        } else {
            spec_clip(q_0, p, bbox)
        }
    }
}

#[via_fn]
proof fn spec_clip_decreases(q_0: Vec2, q_1: Vec2, bbox: Bbox2) {
    let c_0 = code_of(q_0, bbox);
    let c_1 = code_of(q_1, bbox);
    let share = (c_0 >= 8 && c_1 >= 8) || (c_0 >= 4 && c_0 < 8 && c_1 >= 4 && c_1 < 8) || ((c_0
        == 2 || c_0 == 6 || c_0 == 10) && (c_1 == 2 || c_1 == 6 || c_1 == 10)) || ((c_0 == 1
        || c_0 == 5 || c_0 == 9) && (c_1 == 1 || c_1 == 5 || c_1 == 9));
    if !share && !(c_0 == 0 && c_1 == 0) {
        let c = if c_1 > c_0 {
            c_1
        } else {
            c_0
        };
        if c >= 8 || c >= 4 {
            lemma_interp_at_between(
                q_0.x as int,
                q_1.x as int,
                (if c >= 8 {
                    bbox.t
                } else {
                    bbox.b
                }) - q_0.y,
                q_1.y - q_0.y,
            );
        } else {
            lemma_interp_at_between(
                q_0.y as int,
                q_1.y as int,
                (if c == 2 || c == 6 || c == 10 {
                    bbox.r
                } else {
                    bbox.l
                }) - q_0.x,
                q_1.x - q_0.x,
            );
        }
    }
}

fn interp_along(a: i64, b: i64, num: i64, den: i64) -> (r: i64)
    requires
        den != 0,
        (0 <= num <= den) || (den <= num <= 0),
    ensures
        r == interp_at(a as int, b as int, num as int, den as int),
        min(a as int, b as int) <= r <= max(a as int, b as int),
{
    let d: i128 = b as i128 - a as i128;
    let da: i128 = if d >= 0 {
        d
    } else {
        -d
    };
    let na: i128 = if num >= 0 {
        num as i128
    } else {
        -(num as i128)
    };
    let dena: i128 = if den >= 0 {
        den as i128
    } else {
        -(den as i128)
    };
    proof {
        assert(da as int * na < 0x8000_0000_0000_0000_0000_0000_0000_0000) by (nonlinear_arith)
            requires
                0 <= da < 0x1_0000_0000_0000_0000,
                0 <= na <= 0x8000_0000_0000_0000;
    }
    let u = div_floor_i128(da * na, dena);
    proof {
        lemma_div_pos_is_pos(da as int * na, dena as int);
        assert(da as int * na <= da as int * dena) by (nonlinear_arith)
            requires
                0 <= na <= dena,
                0 <= da;
        lemma_div_is_ordered(da as int * na, da as int * dena, dena as int);
        lemma_mul_is_commutative(da as int, dena as int);
        lemma_div_multiples_vanish(da as int, dena as int);
    }
    if b >= a {
        (a as i128 + u) as i64
    } else {
        (a as i128 - u) as i64
    }
}

/// Cohen–Sutherland line clipping.
///
/// Classifies each endpoint by outcode against the box, then repeatedly
/// replaces an outside endpoint with the intersection of the segment and
/// one box side, preferring top over bottom over right over left.  Returns
/// `None` when the segment lies entirely on the outside of one side, and
/// the clipped endpoints otherwise.  The result is exactly [`spec_clip`];
/// the remaining clauses restate its most-used consequences.
pub fn clip_line(p_0: &Vec2, p_1: &Vec2, bbox: &Bbox2) -> (res: Option<(Vec2, Vec2)>)
    requires
        bbox.wf(),
        bbox.in_range(),
        p_0.in_range(),
        p_1.in_range(),
    ensures
        res == spec_clip(*p_0, *p_1, *bbox),
        bbox.spec_contains(p_0.x as int, p_0.y as int) && bbox.spec_contains(
            p_1.x as int,
            p_1.y as int,
        ) ==> res == Some((*p_0, *p_1)),
        res matches Some(qs) ==> bbox.spec_contains(qs.0.x as int, qs.0.y as int)
            && bbox.spec_contains(qs.1.x as int, qs.1.y as int),
        res matches Some(qs) ==> min(p_0.x as int, p_1.x as int) <= qs.0.x <= max(
            p_0.x as int,
            p_1.x as int,
        ) && min(p_0.y as int, p_1.y as int) <= qs.0.y <= max(p_0.y as int, p_1.y as int) && min(
            p_0.x as int,
            p_1.x as int,
        ) <= qs.1.x <= max(p_0.x as int, p_1.x as int) && min(p_0.y as int, p_1.y as int) <= qs.1.y
            <= max(p_0.y as int, p_1.y as int),
        p_0.x < bbox.l && p_1.x < bbox.l ==> res is None,
        p_0.x > bbox.r && p_1.x > bbox.r ==> res is None,
        p_0.y < bbox.b && p_1.y < bbox.b ==> res is None,
        p_0.y > bbox.t && p_1.y > bbox.t ==> res is None,
        bbox.spec_contains(p_0.x as int, p_0.y as int) ==> res is Some && res.unwrap().0
            == *p_0,
        bbox.spec_contains(p_1.x as int, p_1.y as int) ==> res is Some && res.unwrap().1
            == *p_1,
{
    let mut q_0 = *p_0;
    let mut q_1 = *p_1;
    let mut code_0 = compute_area_code(&q_0, bbox);
    let mut code_1 = compute_area_code(&q_1, bbox);

    loop
        invariant
            bbox.wf(),
            bbox.in_range(),
            p_0.in_range(),
            p_1.in_range(),
            q_0.in_range(),
            q_1.in_range(),
            code_0 as int == code_of(q_0, *bbox),
            code_1 as int == code_of(q_1, *bbox),
            min(p_0.x as int, p_1.x as int) <= q_0.x <= max(p_0.x as int, p_1.x as int),
            min(p_0.y as int, p_1.y as int) <= q_0.y <= max(p_0.y as int, p_1.y as int),
            min(p_0.x as int, p_1.x as int) <= q_1.x <= max(p_0.x as int, p_1.x as int),
            min(p_0.y as int, p_1.y as int) <= q_1.y <= max(p_0.y as int, p_1.y as int),
            code_of(*p_0, *bbox) == 0 ==> q_0 == *p_0,
            code_of(*p_1, *bbox) == 0 ==> q_1 == *p_1,
            spec_clip(q_0, q_1, *bbox) == spec_clip(*p_0, *p_1, *bbox),
        decreases outside_sides(q_0, q_1, *bbox),
    {
        // Both points outside on a shared side: no intersection.
        let share = (code_0 >= 8 && code_1 >= 8) || (code_0 >= 4 && code_0 < 8 && code_1 >= 4
            && code_1 < 8) || ((code_0 == 2 || code_0 == 6 || code_0 == 10) && (code_1 == 2
            || code_1 == 6 || code_1 == 10)) || ((code_0 == 1 || code_0 == 5 || code_0 == 9)
            && (code_1 == 1 || code_1 == 5 || code_1 == 9));
        if share {
            return None;
        }
        // Both points inside: done.
        if code_0 == 0 && code_1 == 0 {
            return Some((q_0, q_1));
        }
        // Pick the point with the higher-priority outside bit.
        let code = if code_1 > code_0 {
            code_1
        } else {
            code_0
        };

        // Intersect the segment with the corresponding box side.
        let p: Vec2 = if code >= 8 {
            let nx = interp_along(q_0.x, q_1.x, bbox.t - q_0.y, q_1.y - q_0.y);
            Vec2 { x: nx, y: bbox.t }
        } else if code >= 4 {
            let nx = interp_along(q_0.x, q_1.x, bbox.b - q_0.y, q_1.y - q_0.y);
            Vec2 { x: nx, y: bbox.b }
        } else if code == 2 || code == 6 || code == 10 {
            let ny = interp_along(q_0.y, q_1.y, bbox.r - q_0.x, q_1.x - q_0.x);
            Vec2 { x: bbox.r, y: ny }
        } else {
            let ny = interp_along(q_0.y, q_1.y, bbox.l - q_0.x, q_1.x - q_0.x);
            Vec2 { x: bbox.l, y: ny }
        };

        // Replace the outside point with the intersection point.
        if code == code_0 {
            q_0 = p;
            code_0 = compute_area_code(&q_0, bbox);
        } else {
            q_1 = p;
            code_1 = compute_area_code(&q_1, bbox);
        }
    }
}

/// The integer pixel nearest to a fixed-point coordinate (halves round up).
pub open spec fn pixel_of(v: int) -> int {
    (v + HALF_SCALE) / (SCALE as int)
}

/// The error-accumulator state of the walk after `k` pixels: how often the
/// minor coordinate has stepped, and the accumulator value.  Every pixel
/// adds `2 * dy` to the accumulator; when it exceeds `dx`, the minor
/// coordinate steps and the accumulator drops by `2 * dx` (this is the
/// integer form of accumulating the slope and stepping past one half).
pub open spec fn bres_state(k: nat, dx: int, dy: int) -> (int, int)
    decreases k,
{
    if k == 0 {
        (0, -2 * dy)
    } else {
        let prev = bres_state((k - 1) as nat, dx, dy);
        let n_1 = prev.1 + 2 * dy;
        if n_1 > dx {
            (prev.0 + 1, n_1 - 2 * dx)
        } else {
            (prev.0, n_1)
        }
    }
}

/// What a Bresenham walk from `p_0` to `p_1` yields.  With `(x0, y0)` and
/// `(x1, y1)` the endpoint pixels and `dx`, `dy` the absolute deltas:
/// exactly `max(dx, dy) + 1` pixels; along the dominant axis they advance by
/// exactly one per step (so none repeats and none is skipped), while the
/// other coordinate follows the error accumulator ([`bres_state`]) from the
/// left end of the (transposed, left-to-right oriented) walk — which also
/// keeps it between the endpoints and stepping by at most one; the walk
/// starts at one endpoint pixel and finishes at the other.  The orientation
/// is canonical, so swapping the endpoints yields the same pixels.
pub open spec fn bresenham_pixels(p_0: Vec2, p_1: Vec2, pixels: Seq<Vec2>) -> bool {
    let x0 = pixel_of(p_0.x as int);
    let y0 = pixel_of(p_0.y as int);
    let x1 = pixel_of(p_1.x as int);
    let y1 = pixel_of(p_1.y as int);
    let dx = abs(x1 - x0) as int;
    let dy = abs(y1 - y0) as int;
    let steep = dy > dx;
    let t0 = if steep { (y0, x0) } else { (x0, y0) };
    let t1 = if steep { (y1, x1) } else { (x1, y1) };
    let o0 = if t0.0 > t1.0 { t1 } else { t0 };
    let o1 = if t0.0 > t1.0 { t0 } else { t1 };
    &&& pixels.len() == max(dx, dy) + 1
    &&& forall|i: int|
        0 <= i < pixels.len() ==> {
            let st = bres_state((i + 1) as nat, max(dx, dy), min(dx, dy)).0;
            let minor = if o1.1 >= o0.1 { o0.1 + st } else { o0.1 - st };
            let major = o0.0 + i;
            &&& (#[trigger] pixels[i]).x == (if steep { minor } else { major })
            &&& pixels[i].y == (if steep { major } else { minor })
        }
    &&& (dy <= dx ==> forall|i: int|
        0 <= i < pixels.len() ==> (#[trigger] pixels[i]).x == min(x0, x1) + i && min(y0, y1)
            <= pixels[i].y <= max(y0, y1))
    &&& (dy > dx ==> forall|i: int|
        0 <= i < pixels.len() ==> (#[trigger] pixels[i]).y == min(y0, y1) + i && min(x0, x1)
            <= pixels[i].x <= max(x0, x1))
    &&& ((pixels[0].x == x0 && pixels[0].y == y0 && pixels[pixels.len() - 1].x == x1
        && pixels[pixels.len() - 1].y == y1) || (pixels[0].x == x1 && pixels[0].y == y1
        && pixels[pixels.len() - 1].x == x0 && pixels[pixels.len() - 1].y == y0))
    &&& forall|i: int|
        0 <= i < pixels.len() - 1 ==> -1 <= (#[trigger] pixels[i + 1]).x - pixels[i].x <= 1 && -1
            <= pixels[i + 1].y - pixels[i].y <= 1
}

fn abs_i64(v: i64) -> (r: i64)
    requires
        i64::MIN < v,
    ensures
        r == abs(v as int),
{
    if v >= 0 {
        v
    } else {
        -v
    }
}

/// Rounding a coordinate in the fixed-point range gives a pixel within
/// `MAX_DIM` of the origin.
proof fn lemma_pixel_range(v: int)
    requires
        -COORD_LIMIT <= v <= COORD_LIMIT,
    ensures
        -1024 <= pixel_of(v) <= 1024,
{
    lemma_div_is_ordered(v + HALF_SCALE, COORD_LIMIT + HALF_SCALE, SCALE as int);
    lemma_div_is_ordered(-COORD_LIMIT + HALF_SCALE, v + HALF_SCALE, SCALE as int);
}

proof fn lemma_bres_advance(dy: int, dx: int, k: int, st: int, n: int) by (nonlinear_arith)
    requires
        n == 2 * dy * k - 2 * dx * st - 2 * dy,
    ensures
        n + 2 * dy == 2 * dy * (k + 1) - 2 * dx * st - 2 * dy,
        n + 2 * dy - 2 * dx == 2 * dy * (k + 1) - 2 * dx * (st + 1) - 2 * dy,
{
}

proof fn lemma_bres_no_overshoot(dy: int, dx: int, k: int, st: int, n: int) by (nonlinear_arith)
    requires
        n == 2 * dy * k - 2 * dx * st - 2 * dy,
        n + 2 * dy > dx,
        0 <= k <= dx,
        0 <= st <= dy,
        dy <= dx,
    ensures
        st + 1 <= dy,
{
}

proof fn lemma_bres_final(dy: int, dx: int, st: int, n: int) by (nonlinear_arith)
    requires
        n == 2 * dy * (dx + 1) - 2 * dx * st - 2 * dy,
        dx >= 1 ==> -dx < n <= dx,
        0 <= st <= dy,
        dy <= dx,
        0 <= dy,
        0 <= dx,
    ensures
        st == dy,
{
}

/// Bresenham line scan conversion.
///
/// Rounds the endpoints to pixels, transposes when the slope exceeds one so
/// the dominant axis always advances by single steps, walks left to right,
/// and lets an integer error accumulator decide when the other coordinate
/// steps.  Returns the walked pixels in order; see [`bresenham_pixels`] for
/// exactly what the walk guarantees.
#[verifier::loop_isolation(false)]
#[verifier::rlimit(100)]
pub fn travel_line_bresenham(p_0: &Vec2, p_1: &Vec2) -> (pixels: Vec<Vec2>)
    requires
        p_0.in_range(),
        p_1.in_range(),
    ensures
        bresenham_pixels(*p_0, *p_1, pixels@),
{
    proof {
        lemma_pixel_range(p_0.x as int);
        lemma_pixel_range(p_0.y as int);
        lemma_pixel_range(p_1.x as int);
        lemma_pixel_range(p_1.y as int);
    }
    let mut x_0 = round_to_int(p_0.x);
    let mut y_0 = round_to_int(p_0.y);
    let mut x_1 = round_to_int(p_1.x);
    let mut y_1 = round_to_int(p_1.y);

    let steep = abs_i64(y_1 - y_0) > abs_i64(x_1 - x_0);
    if steep {
        // Swap x and y so that the slope abs is always at most 1.
        let tmp = x_0;
        x_0 = y_0;
        y_0 = tmp;
        let tmp = x_1;
        x_1 = y_1;
        y_1 = tmp;
    }
    if x_0 > x_1 {
        // Swap the endpoints so that the traversal runs left to right.
        let tmp = x_0;
        x_0 = x_1;
        x_1 = tmp;
        let tmp = y_0;
        y_0 = y_1;
        y_1 = tmp;
    }
    let delta_x = x_1 - x_0;
    let delta_y = y_1 - y_0;
    let dy_abs = abs_i64(delta_y);
    let incr_n = 2 * dy_abs;
    let decr_n = 2 * delta_x;
    let mut n = -incr_n;
    let mut y = y_0;
    let s: i64 = if delta_y > 0 {
        1
    } else {
        -1
    };
    let mut pixels: Vec<Vec2> = Vec::new();
    let mut k: i64 = 0;
    while k <= delta_x
        invariant
            0 <= k <= delta_x + 1,
            pixels.len() == k,
            delta_y >= 0 ==> y_0 <= y <= y_0 + dy_abs,
            delta_y < 0 ==> y_0 - dy_abs <= y <= y_0,
            delta_y >= 0 ==> n == 2 * dy_abs * k - 2 * delta_x * (y - y_0) - 2 * dy_abs,
            delta_y < 0 ==> n == 2 * dy_abs * k - 2 * delta_x * (y_0 - y) - 2 * dy_abs,
            k == 0 ==> y == y_0 && n == -2 * dy_abs,
            k >= 1 ==> n <= delta_x,
            k >= 1 && delta_x >= 1 ==> -delta_x < n,
            delta_y >= 0 ==> y - y_0 == bres_state(k as nat, delta_x as int, dy_abs as int).0,
            delta_y < 0 ==> y_0 - y == bres_state(k as nat, delta_x as int, dy_abs as int).0,
            n == bres_state(k as nat, delta_x as int, dy_abs as int).1,
            steep ==> forall|i: int|
                0 <= i < k ==> (#[trigger] pixels[i]).x == (if delta_y >= 0 {
                    y_0 + bres_state((i + 1) as nat, delta_x as int, dy_abs as int).0
                } else {
                    y_0 - bres_state((i + 1) as nat, delta_x as int, dy_abs as int).0
                }),
            !steep ==> forall|i: int|
                0 <= i < k ==> (#[trigger] pixels[i]).y == (if delta_y >= 0 {
                    y_0 + bres_state((i + 1) as nat, delta_x as int, dy_abs as int).0
                } else {
                    y_0 - bres_state((i + 1) as nat, delta_x as int, dy_abs as int).0
                }),
            steep ==> forall|i: int|
                0 <= i < k ==> (#[trigger] pixels[i]).y == x_0 + i && min(y_0 as int, y_1 as int)
                    <= pixels[i].x <= max(y_0 as int, y_1 as int),
            !steep ==> forall|i: int|
                0 <= i < k ==> (#[trigger] pixels[i]).x == x_0 + i && min(y_0 as int, y_1 as int)
                    <= pixels[i].y <= max(y_0 as int, y_1 as int),
            steep ==> forall|i: int|
                0 <= i < k - 1 ==> -1 <= (#[trigger] pixels[i + 1]).x - pixels[i].x <= 1,
            !steep ==> forall|i: int|
                0 <= i < k - 1 ==> -1 <= (#[trigger] pixels[i + 1]).y - pixels[i].y <= 1,
            k >= 1 ==> pixels[0] == (if steep {
                Vec2 { x: y_0, y: x_0 }
            } else {
                Vec2 { x: x_0, y: y_0 }
            }),
            k >= 1 ==> pixels[k - 1].x == (if steep {
                y as int
            } else {
                x_0 + k - 1
            }) && pixels[k - 1].y == (if steep {
                x_0 + k - 1
            } else {
                y as int
            }),
        decreases delta_x + 1 - k,
    {
        let ghost st_old: int = if delta_y >= 0 {
            y - y_0
        } else {
            y_0 - y
        };
        n = n + incr_n;
        if n > delta_x {
            proof {
                lemma_bres_no_overshoot(
                    dy_abs as int,
                    delta_x as int,
                    k as int,
                    st_old,
                    n - incr_n,
                );
                lemma_bres_advance(dy_abs as int, delta_x as int, k as int, st_old, n - incr_n);
            }
            y = y + s;
            n = n - decr_n;
        } else {
            proof {
                lemma_bres_advance(dy_abs as int, delta_x as int, k as int, st_old, n - incr_n);
            }
        }
        let px = if steep {
            Vec2 { x: y, y: x_0 + k }
        } else {
            Vec2 { x: x_0 + k, y }
        };
        pixels.push(px);
        k = k + 1;
    }
    proof {
        let st: int = if delta_y >= 0 {
            y - y_0
        } else {
            y_0 - y
        };
        lemma_bres_final(dy_abs as int, delta_x as int, st, n as int);
        assert(y == y_1);
    }
    pixels
}

} // verus!
