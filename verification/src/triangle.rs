//! Triangle rasterization by barycentric coordinates.
//!
//! Barycentric weights are solved with the dot-product (Gram matrix) form of
//! Cramer's rule.  All tests against the triangle run on exact integer
//! numerators and denominator, so membership of a pixel is decided without
//! any rounding; only the weights handed to interpolation are floor-scaled
//! to fixed point.

use crate::basetype::Bbox2;
use crate::fixed::{div_floor, div_floor_i128, COORD_LIMIT, SCALE};
use crate::interpolate::BaryCoord;
use crate::vector::Vec2;
use vstd::arithmetic::div_mod::{
    lemma_div_is_ordered, lemma_div_multiples_vanish, lemma_div_pos_is_pos,
    lemma_fundamental_div_mod, lemma_fundamental_div_mod_converse, lemma_mod_bound,
};
use vstd::math::{max, min};
use vstd::prelude::*;

verus! {

/// The Gram determinant of the triangle's edge vectors: twice its squared
/// area.  Zero exactly for a degenerate (collinear) triangle, never
/// negative.
pub open spec fn bary_den(p_0: Vec2, p_1: Vec2, p_2: Vec2) -> int {
    let d00 = (p_2.x - p_0.x) * (p_2.x - p_0.x) + (p_2.y - p_0.y) * (p_2.y - p_0.y);
    let d01 = (p_2.x - p_0.x) * (p_1.x - p_0.x) + (p_2.y - p_0.y) * (p_1.y - p_0.y);
    let d11 = (p_1.x - p_0.x) * (p_1.x - p_0.x) + (p_1.y - p_0.y) * (p_1.y - p_0.y);
    d00 * d11 - d01 * d01
}

/// Numerator of the second barycentric weight of the point `(x, y)`
/// (the weight of `p_1`); the full weight is this over [`bary_den`].
pub open spec fn beta_num(p_0: Vec2, p_1: Vec2, p_2: Vec2, x: int, y: int) -> int {
    let d00 = (p_2.x - p_0.x) * (p_2.x - p_0.x) + (p_2.y - p_0.y) * (p_2.y - p_0.y);
    let d01 = (p_2.x - p_0.x) * (p_1.x - p_0.x) + (p_2.y - p_0.y) * (p_1.y - p_0.y);
    let d02 = (p_2.x - p_0.x) * (x - p_0.x) + (p_2.y - p_0.y) * (y - p_0.y);
    let d12 = (p_1.x - p_0.x) * (x - p_0.x) + (p_1.y - p_0.y) * (y - p_0.y);
    d00 * d12 - d01 * d02
}

/// Numerator of the third barycentric weight of the point `(x, y)`
/// (the weight of `p_2`).
pub open spec fn gamma_num(p_0: Vec2, p_1: Vec2, p_2: Vec2, x: int, y: int) -> int {
    let d01 = (p_2.x - p_0.x) * (p_1.x - p_0.x) + (p_2.y - p_0.y) * (p_1.y - p_0.y);
    let d02 = (p_2.x - p_0.x) * (x - p_0.x) + (p_2.y - p_0.y) * (y - p_0.y);
    let d11 = (p_1.x - p_0.x) * (p_1.x - p_0.x) + (p_1.y - p_0.y) * (p_1.y - p_0.y);
    let d12 = (p_1.x - p_0.x) * (x - p_0.x) + (p_1.y - p_0.y) * (y - p_0.y);
    d11 * d02 - d01 * d12
}

/// Whether `(x, y)` lies inside the (non-degenerate) triangle, boundary
/// included: all three exact barycentric weights lie in `[0, 1]`.
pub open spec fn spec_inside(p_0: Vec2, p_1: Vec2, p_2: Vec2, x: int, y: int) -> bool {
    let den = bary_den(p_0, p_1, p_2);
    let bn = beta_num(p_0, p_1, p_2, x, y);
    let gn = gamma_num(p_0, p_1, p_2, x, y);
    den > 0 && bn >= 0 && gn >= 0 && bn + gn <= den
}

/// Computes the denominator and the two weight numerators in exact integer
/// arithmetic.
fn bary_terms(p_0: &Vec2, p_1: &Vec2, p_2: &Vec2, p: &Vec2) -> (r: (i128, i128, i128))
    requires
        p_0.in_range(),
        p_1.in_range(),
        p_2.in_range(),
        p.in_range(),
    ensures
        r.0 == bary_den(*p_0, *p_1, *p_2),
        r.1 == beta_num(*p_0, *p_1, *p_2, p.x as int, p.y as int),
        r.2 == gamma_num(*p_0, *p_1, *p_2, p.x as int, p.y as int),
        r.0 <= 0x4000_0000_0000_0000_0000_0000_0000,
        -0x8000_0000_0000_0000_0000_0000_0000 <= r.1 <= 0x8000_0000_0000_0000_0000_0000_0000,
        -0x8000_0000_0000_0000_0000_0000_0000 <= r.2 <= 0x8000_0000_0000_0000_0000_0000_0000,
{
    let v0x: i128 = p_2.x as i128 - p_0.x as i128;
    let v0y: i128 = p_2.y as i128 - p_0.y as i128;
    let v1x: i128 = p_1.x as i128 - p_0.x as i128;
    let v1y: i128 = p_1.y as i128 - p_0.y as i128;
    let v2x: i128 = p.x as i128 - p_0.x as i128;
    let v2y: i128 = p.y as i128 - p_0.y as i128;
    proof {
        lemma_dot_bound(v0x as int, v0y as int, v0x as int, v0y as int);
        lemma_dot_bound(v0x as int, v0y as int, v1x as int, v1y as int);
        lemma_dot_bound(v0x as int, v0y as int, v2x as int, v2y as int);
        lemma_dot_bound(v1x as int, v1y as int, v1x as int, v1y as int);
        lemma_dot_bound(v1x as int, v1y as int, v2x as int, v2y as int);
    }
    let d00: i128 = v0x * v0x + v0y * v0y;
    let d01: i128 = v0x * v1x + v0y * v1y;
    let d02: i128 = v0x * v2x + v0y * v2y;
    let d11: i128 = v1x * v1x + v1y * v1y;
    let d12: i128 = v1x * v2x + v1y * v2y;
    proof {
        lemma_det_bound(d00 as int, d11 as int, d01 as int, d01 as int);
        lemma_det_bound(d00 as int, d12 as int, d01 as int, d02 as int);
        lemma_det_bound(d11 as int, d02 as int, d01 as int, d12 as int);
    }
    let den: i128 = d00 * d11 - d01 * d01;
    let bn: i128 = d00 * d12 - d01 * d02;
    let gn: i128 = d11 * d02 - d01 * d12;
    proof {
        // The subtracted square is nonnegative, so the denominator is at
        // most the product of the two squared edge lengths.
        assert(d01 as int * d01 >= 0) by (nonlinear_arith);
    }
    (den, bn, gn)
}

/// Dot products of coordinate differences stay within `2^55`.
proof fn lemma_dot_bound(ax: int, ay: int, bx: int, by: int) by (nonlinear_arith)
    requires
        -0x800_0000 <= ax <= 0x800_0000,
        -0x800_0000 <= ay <= 0x800_0000,
        -0x800_0000 <= bx <= 0x800_0000,
        -0x800_0000 <= by <= 0x800_0000,
    ensures
        -0x40_0000_0000_0000 <= ax * bx <= 0x40_0000_0000_0000,
        -0x40_0000_0000_0000 <= ay * by <= 0x40_0000_0000_0000,
        -0x80_0000_0000_0000 <= ax * bx + ay * by <= 0x80_0000_0000_0000,
{
}

/// 2x2 determinants of bounded dot products stay within `2^111`, far inside
/// the `i128` range.
proof fn lemma_det_bound(a: int, b: int, c: int, d: int) by (nonlinear_arith)
    requires
        -0x80_0000_0000_0000 <= a <= 0x80_0000_0000_0000,
        -0x80_0000_0000_0000 <= b <= 0x80_0000_0000_0000,
        -0x80_0000_0000_0000 <= c <= 0x80_0000_0000_0000,
        -0x80_0000_0000_0000 <= d <= 0x80_0000_0000_0000,
    ensures
        -0x4000_0000_0000_0000_0000_0000_0000 <= a * b <= 0x4000_0000_0000_0000_0000_0000_0000,
        -0x4000_0000_0000_0000_0000_0000_0000 <= c * d <= 0x4000_0000_0000_0000_0000_0000_0000,
        -0x8000_0000_0000_0000_0000_0000_0000 <= a * b - c * d
            <= 0x8000_0000_0000_0000_0000_0000_0000,
{
}

/// Floor sums never exceed the floor of the sum.
proof fn lemma_div_sum_le(a: int, b: int, d: int)
    requires
        0 < d,
    ensures
        a / d + b / d <= (a + b) / d,
{
    lemma_fundamental_div_mod(a, d);
    lemma_fundamental_div_mod(b, d);
    lemma_mod_bound(a, d);
    lemma_mod_bound(b, d);
    let qs = a / d + b / d;
    let rs = a % d + b % d;
    assert(a + b == qs * d + rs) by (nonlinear_arith)
        requires
            a == d * (a / d) + a % d,
            b == d * (b / d) + b % d,
            qs == a / d + b / d,
            rs == a % d + b % d;
    if rs < d {
        lemma_fundamental_div_mod_converse(a + b, d, qs, rs);
    } else {
        assert(a + b == (qs + 1) * d + (rs - d)) by (nonlinear_arith)
            requires
                a + b == qs * d + rs;
        lemma_fundamental_div_mod_converse(a + b, d, qs + 1, rs - d);
    }
}

/// Barycentric coordinates of a point with respect to a triangle, by the
/// dot-product form of Cramer's rule on exact integers.
///
/// Returns `None` when the triangle is degenerate (zero denominator) or the
/// point lies outside the triangle — one of the exact weights falls outside
/// `[0, 1]`.  Returns the floor-scaled fixed-point weights otherwise; they
/// are then well-formed blend weights (nonnegative, summing to one).
pub fn barycentric(p_0: &Vec2, p_1: &Vec2, p_2: &Vec2, p: &Vec2) -> (res: Option<BaryCoord>)
    requires
        p_0.in_range(),
        p_1.in_range(),
        p_2.in_range(),
        p.in_range(),
    ensures
        res is Some <==> spec_inside(*p_0, *p_1, *p_2, p.x as int, p.y as int),
        res matches Some(w) ==> {
            let den = bary_den(*p_0, *p_1, *p_2);
            &&& w.w_1 == beta_num(*p_0, *p_1, *p_2, p.x as int, p.y as int) * SCALE / den
            &&& w.w_2 == gamma_num(*p_0, *p_1, *p_2, p.x as int, p.y as int) * SCALE / den
            &&& w.w_0 == SCALE - w.w_1 - w.w_2
            &&& w.wf()
        },
{
    let (den, bn, gn) = bary_terms(p_0, p_1, p_2, p);
    if den > 0 && bn >= 0 && gn >= 0 && bn + gn <= den {
        proof {
            lemma_weight_product_bound(bn as int, den as int);
            lemma_weight_product_bound(gn as int, den as int);
            lemma_weight_in_unit(bn as int, den as int);
            lemma_weight_in_unit(gn as int, den as int);
            lemma_div_sum_le(bn as int * SCALE, gn as int * SCALE, den as int);
            assert((bn as int + gn) * SCALE <= den as int * SCALE) by (nonlinear_arith)
                requires
                    bn as int + gn <= den,
                    0 < den,
                    bn as int >= 0,
                    gn as int >= 0;
            assert(bn as int * SCALE + gn as int * SCALE == (bn as int + gn) * SCALE)
                by (nonlinear_arith);
            lemma_div_is_ordered((bn as int + gn) * SCALE, den as int * SCALE, den as int);
            lemma_div_multiples_vanish(SCALE as int, den as int);
            assert(den as int * SCALE == den as int * (SCALE as int));
        }
        let beta = div_floor_i128(bn * (SCALE as i128), den) as i64;
        let gamma = div_floor_i128(gn * (SCALE as i128), den) as i64;
        Some(BaryCoord { w_0: SCALE - beta - gamma, w_1: beta, w_2: gamma })
    } else {
        None
    }
}

/// A weight numerator at most the denominator keeps its scaled product far
/// from the `i128` range ends.
proof fn lemma_weight_product_bound(n: int, d: int) by (nonlinear_arith)
    requires
        0 <= n <= d,
        d <= 0x4000_0000_0000_0000_0000_0000_0000,
    ensures
        0 <= n * SCALE <= 0x4000_0000_0000_0000_0000_0000_0000 * 0x1_0000,
{
}

/// Floor-scaling an exact weight in `[0, 1]` lands in `[0, SCALE]`.
proof fn lemma_weight_in_unit(n: int, d: int)
    requires
        0 <= n <= d,
        0 < d,
    ensures
        0 <= n * SCALE / d <= SCALE,
{
    lemma_div_pos_is_pos(n * SCALE, d);
    assert(n * SCALE <= d * SCALE) by (nonlinear_arith)
        requires
            0 <= n <= d;
    lemma_div_is_ordered(n * SCALE, d * SCALE, d);
    lemma_div_multiples_vanish(SCALE as int, d);
}

/// Least whole pixel whose center coordinate `pixel * SCALE` is at least
/// `v`.
pub open spec fn ceil_px(v: int) -> int {
    (v + SCALE - 1) / (SCALE as int)
}

/// Greatest whole pixel whose center coordinate is at most `v`.
pub open spec fn floor_px(v: int) -> int {
    v / (SCALE as int)
}

/// First pixel column of the scan region: the triangle's bounding box
/// intersected with the clip box, rounded inward to pixel centers.
pub open spec fn scan_lo_x(p_0: Vec2, p_1: Vec2, p_2: Vec2, clip: Bbox2) -> int {
    ceil_px(max(min(p_0.x as int, min(p_1.x as int, p_2.x as int)), clip.l as int))
}

/// Last pixel column of the scan region.
pub open spec fn scan_hi_x(p_0: Vec2, p_1: Vec2, p_2: Vec2, clip: Bbox2) -> int {
    floor_px(min(max(p_0.x as int, max(p_1.x as int, p_2.x as int)), clip.r as int))
}

/// First pixel row of the scan region.
pub open spec fn scan_lo_y(p_0: Vec2, p_1: Vec2, p_2: Vec2, clip: Bbox2) -> int {
    ceil_px(max(min(p_0.y as int, min(p_1.y as int, p_2.y as int)), clip.b as int))
}

/// Last pixel row of the scan region.
pub open spec fn scan_hi_y(p_0: Vec2, p_1: Vec2, p_2: Vec2, clip: Bbox2) -> int {
    floor_px(min(max(p_0.y as int, max(p_1.y as int, p_2.y as int)), clip.t as int))
}

/// Whether the center of the whole pixel `(x, y)` lies inside the triangle.
pub open spec fn pixel_inside(p_0: Vec2, p_1: Vec2, p_2: Vec2, x: int, y: int) -> bool {
    spec_inside(p_0, p_1, p_2, x * SCALE, y * SCALE)
}

/// The blend weights a fragment at the whole pixel `(x, y)` carries: the
/// exact barycentric weights of its center, floor-scaled to fixed point.
pub open spec fn pixel_weights(p_0: Vec2, p_1: Vec2, p_2: Vec2, x: int, y: int) -> BaryCoord {
    let den = bary_den(p_0, p_1, p_2);
    let w_1 = beta_num(p_0, p_1, p_2, x * SCALE, y * SCALE) * SCALE / den;
    let w_2 = gamma_num(p_0, p_1, p_2, x * SCALE, y * SCALE) * SCALE / den;
    BaryCoord { w_0: (SCALE - w_1 - w_2) as i64, w_1: w_1 as i64, w_2: w_2 as i64 }
}

/// The scan region of in-range inputs stays within `MAX_DIM` pixels of the
/// origin, so every scanned pixel center is an in-range coordinate.
pub proof fn lemma_scan_in_pixel_range(p_0: Vec2, p_1: Vec2, p_2: Vec2, clip: Bbox2)
    requires
        p_0.in_range(),
        p_1.in_range(),
        p_2.in_range(),
        clip.in_range(),
    ensures
        -1024 <= scan_lo_x(p_0, p_1, p_2, clip) <= 1024,
        -1024 <= scan_hi_x(p_0, p_1, p_2, clip) <= 1024,
        -1024 <= scan_lo_y(p_0, p_1, p_2, clip) <= 1024,
        -1024 <= scan_hi_y(p_0, p_1, p_2, clip) <= 1024,
{
    lemma_scan_px_range(max(min(p_0.x as int, min(p_1.x as int, p_2.x as int)), clip.l as int));
    lemma_scan_px_range(min(max(p_0.x as int, max(p_1.x as int, p_2.x as int)), clip.r as int));
    lemma_scan_px_range(max(min(p_0.y as int, min(p_1.y as int, p_2.y as int)), clip.b as int));
    lemma_scan_px_range(min(max(p_0.y as int, max(p_1.y as int, p_2.y as int)), clip.t as int));
}

/// Rounding a coordinate in the fixed-point range inward stays within
/// `MAX_DIM` pixels of the origin.
proof fn lemma_scan_px_range(v: int)
    requires
        -COORD_LIMIT <= v <= COORD_LIMIT,
    ensures
        -1024 <= ceil_px(v) <= 1024,
        -1024 <= floor_px(v) <= 1024,
{
    lemma_div_is_ordered(v + SCALE - 1, COORD_LIMIT + SCALE - 1, SCALE as int);
    lemma_div_is_ordered(-COORD_LIMIT + SCALE - 1, v + SCALE - 1, SCALE as int);
    lemma_div_is_ordered(v, COORD_LIMIT as int, SCALE as int);
    lemma_div_is_ordered(-COORD_LIMIT as int, v, SCALE as int);
}

/// An inward-rounded nonempty coordinate interval spans at most one more
/// pixel than it has room for: the pixel range is never "negatively empty"
/// by more than one.
proof fn lemma_ceil_le_floor_succ(a: int, b: int)
    requires
        a <= b,
    ensures
        ceil_px(a) <= floor_px(b) + 1,
{
    vstd::arithmetic::div_mod::lemma_div_plus_one(a - 1, SCALE as int);
    lemma_div_is_ordered(a - 1, b, SCALE as int);
}

/// An empty coordinate interval holds no pixel center: rounding inward
/// crosses the bounds over.
proof fn lemma_ceil_gt_floor(a: int, b: int)
    requires
        a > b,
    ensures
        ceil_px(a) > floor_px(b),
{
    let ca = ceil_px(a);
    let fb = floor_px(b);
    lemma_fundamental_div_mod(a + SCALE - 1, SCALE as int);
    lemma_mod_bound(a + SCALE - 1, SCALE as int);
    lemma_fundamental_div_mod(b, SCALE as int);
    lemma_mod_bound(b, SCALE as int);
    assert(ca > fb) by (nonlinear_arith)
        requires
            SCALE as int * ca >= a,
            SCALE as int * fb <= b,
            a > b;
}

/// Scans the bounding box of the triangle, clipped to `bbox`, and collects
/// every pixel whose center lies inside the triangle (boundary included),
/// together with its fixed-point barycentric weights.
///
/// The result holds exactly the inside pixels of the scan region — no pixel
/// missing, none repeated — in row-major order (x outward, y inward).
/// Pixels exactly on a triangle edge are included, the chosen tie-break for
/// edges shared between adjacent triangles; a degenerate triangle yields no
/// pixels at all.
#[verifier::loop_isolation(false)]
#[verifier::rlimit(60)]
pub fn travel_triangle_barycentric(p_0: &Vec2, p_1: &Vec2, p_2: &Vec2, bbox: &Bbox2) -> (frags:
    Vec<(Vec2, BaryCoord)>)
    requires
        p_0.in_range(),
        p_1.in_range(),
        p_2.in_range(),
        bbox.in_range(),
    ensures
        forall|j: int|
            0 <= j < frags.len() ==> {
                let px = (#[trigger] frags[j]).0;
                &&& scan_lo_x(*p_0, *p_1, *p_2, *bbox) <= px.x <= scan_hi_x(*p_0, *p_1, *p_2, *bbox)
                &&& scan_lo_y(*p_0, *p_1, *p_2, *bbox) <= px.y <= scan_hi_y(*p_0, *p_1, *p_2, *bbox)
                &&& pixel_inside(*p_0, *p_1, *p_2, px.x as int, px.y as int)
                &&& frags[j].1 == pixel_weights(*p_0, *p_1, *p_2, px.x as int, px.y as int)
                &&& frags[j].1.wf()
            },
        forall|x: int, y: int|
            scan_lo_x(*p_0, *p_1, *p_2, *bbox) <= x <= scan_hi_x(*p_0, *p_1, *p_2, *bbox)
                && scan_lo_y(*p_0, *p_1, *p_2, *bbox) <= y <= scan_hi_y(*p_0, *p_1, *p_2, *bbox)
                && #[trigger] pixel_inside(*p_0, *p_1, *p_2, x, y) ==> exists|j: int|
                0 <= j < frags.len() && (#[trigger] frags[j]).0.x == x && frags[j].0.y == y,
        forall|i: int, j: int|
            0 <= i < j < frags.len() ==> (#[trigger] frags[i]).0.x < (#[trigger] frags[j]).0.x
                || (frags[i].0.x == frags[j].0.x && frags[i].0.y < frags[j].0.y),
{
    let ghost glo_x = scan_lo_x(*p_0, *p_1, *p_2, *bbox);
    let ghost ghi_x = scan_hi_x(*p_0, *p_1, *p_2, *bbox);
    let ghost glo_y = scan_lo_y(*p_0, *p_1, *p_2, *bbox);
    let ghost ghi_y = scan_hi_y(*p_0, *p_1, *p_2, *bbox);

    let mut pts: Vec<Vec2> = Vec::new();
    pts.push(*p_0);
    pts.push(*p_1);
    pts.push(*p_2);
    let tri = Bbox2::from_points(&pts);
    proof {
        assert(tri.spec_contains(pts[0].x as int, pts[0].y as int));
        assert(tri.spec_contains(pts[1].x as int, pts[1].y as int));
        assert(tri.spec_contains(pts[2].x as int, pts[2].y as int));
        assert(tri.l as int == min(p_0.x as int, min(p_1.x as int, p_2.x as int)));
        assert(tri.r as int == max(p_0.x as int, max(p_1.x as int, p_2.x as int)));
        assert(tri.b as int == min(p_0.y as int, min(p_1.y as int, p_2.y as int)));
        assert(tri.t as int == max(p_0.y as int, max(p_1.y as int, p_2.y as int)));
    }
    let mut frags: Vec<(Vec2, BaryCoord)> = Vec::new();

    let inter = tri.intersect(bbox);
    if inter.is_none() {
        proof {
            if max(tri.l as int, bbox.l as int) > min(tri.r as int, bbox.r as int) {
                lemma_ceil_gt_floor(
                    max(tri.l as int, bbox.l as int),
                    min(tri.r as int, bbox.r as int),
                );
            } else {
                lemma_ceil_gt_floor(
                    max(tri.b as int, bbox.b as int),
                    min(tri.t as int, bbox.t as int),
                );
            }
        }
        return frags;
    }
    let bb = inter.unwrap();
    proof {
        lemma_scan_px_range(bb.l as int);
        lemma_scan_px_range(bb.r as int);
        lemma_scan_px_range(bb.b as int);
        lemma_scan_px_range(bb.t as int);
        lemma_ceil_le_floor_succ(bb.l as int, bb.r as int);
        lemma_ceil_le_floor_succ(bb.b as int, bb.t as int);
    }
    let lo_x = div_floor(bb.l + (SCALE - 1), SCALE);
    let hi_x = div_floor(bb.r, SCALE);
    let lo_y = div_floor(bb.b + (SCALE - 1), SCALE);
    let hi_y = div_floor(bb.t, SCALE);

    let mut x = lo_x;
    while x <= hi_x
        invariant
            lo_x == glo_x,
            hi_x == ghi_x,
            lo_y == glo_y,
            hi_y == ghi_y,
            lo_x <= x <= hi_x + 1,
            -1024 <= lo_x && hi_x <= 1024,
            -1024 <= lo_y && hi_y <= 1024,
            forall|j: int|
                0 <= j < frags.len() ==> {
                    let px = (#[trigger] frags[j]).0;
                    &&& glo_x <= px.x < x
                    &&& glo_y <= px.y <= ghi_y
                    &&& pixel_inside(*p_0, *p_1, *p_2, px.x as int, px.y as int)
                    &&& frags[j].1 == pixel_weights(*p_0, *p_1, *p_2, px.x as int, px.y as int)
                &&& frags[j].1.wf()
                },
            forall|px: int, py: int|
                glo_x <= px < x && glo_y <= py <= ghi_y && #[trigger] pixel_inside(
                    *p_0,
                    *p_1,
                    *p_2,
                    px,
                    py,
                ) ==> exists|j: int|
                    0 <= j < frags.len() && (#[trigger] frags[j]).0.x == px && frags[j].0.y == py,
            forall|i: int, j: int|
                0 <= i < j < frags.len() ==> (#[trigger] frags[i]).0.x < (#[trigger] frags[j]).0.x
                    || (frags[i].0.x == frags[j].0.x && frags[i].0.y < frags[j].0.y),
        decreases hi_x + 1 - x,
    {
        let mut y = lo_y;
        while y <= hi_y
            invariant
                lo_x == glo_x,
                hi_x == ghi_x,
                lo_y == glo_y,
                hi_y == ghi_y,
                lo_x <= x <= hi_x,
                lo_y <= y <= hi_y + 1,
                -1024 <= lo_x && hi_x <= 1024,
                -1024 <= lo_y && hi_y <= 1024,
                forall|j: int|
                    0 <= j < frags.len() ==> {
                        let px = (#[trigger] frags[j]).0;
                        &&& glo_x <= px.x <= x
                        &&& glo_y <= px.y <= ghi_y
                        &&& (px.x == x ==> px.y < y)
                        &&& pixel_inside(*p_0, *p_1, *p_2, px.x as int, px.y as int)
                        &&& frags[j].1 == pixel_weights(*p_0, *p_1, *p_2, px.x as int, px.y as int)
                &&& frags[j].1.wf()
                    },
                forall|px: int, py: int|
                    glo_x <= px < x && glo_y <= py <= ghi_y && #[trigger] pixel_inside(
                        *p_0,
                        *p_1,
                        *p_2,
                        px,
                        py,
                    ) ==> exists|j: int|
                        0 <= j < frags.len() && (#[trigger] frags[j]).0.x == px && frags[j].0.y
                            == py,
                forall|py: int|
                    glo_y <= py < y && #[trigger] pixel_inside(*p_0, *p_1, *p_2, x as int, py)
                        ==> exists|j: int|
                        0 <= j < frags.len() && (#[trigger] frags[j]).0.x == x as int
                            && frags[j].0.y == py,
                forall|i: int, j: int|
                    0 <= i < j < frags.len() ==> (#[trigger] frags[i]).0.x < (
                    #[trigger] frags[j]).0.x || (frags[i].0.x == frags[j].0.x && frags[i].0.y
                        < frags[j].0.y),
            decreases hi_y + 1 - y,
        {
            let q = Vec2 { x: x * SCALE, y: y * SCALE };
            match barycentric(p_0, p_1, p_2, &q) {
                Some(w) => {
                    let ghost frags_old = frags@;
                    frags.push((Vec2 { x, y }, w));
                    proof {
                        assert(forall|j: int|
                            0 <= j < frags_old.len() ==> frags@[j] == frags_old[j]);
                        assert(frags@[frags@.len() - 1].0.x == x as int && frags@[frags@.len()
                            - 1].0.y == y as int);
                    }
                },
                None => {},
            }
            y = y + 1;
        }
        x = x + 1;
    }
    frags
}

} // verus!
