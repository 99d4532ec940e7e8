//! The interpolation engine: blending values of arbitrary payload types with
//! 2D (linear) or 3D (barycentric) fixed-point weights.
//!
//! Every payload type that travels from the vertex stage to the fragment
//! stage implements [`Interpolate`]; structures delegate field by field, so
//! arbitrary shading data interpolates with no rasterizer support code.  The
//! trait contract carries the interpolation identity: blending equal values
//! with any well-formed weights gives that value back exactly.

use crate::fixed::{div_floor_i128, SCALE};
use crate::vector::{Vec2, Vec3, Vec4};
use vstd::arithmetic::div_mod::{lemma_div_is_ordered, lemma_div_multiples_vanish};
use vstd::math::{max, min};
use vstd::prelude::*;

verus! {

/// 2D blend weights: nonnegative fixed-point values summing to one
/// (`SCALE`).
///
/// For two weights, nonnegativity is no restriction at all: any pair of
/// magnitude at most one that sums to one is already nonnegative.
#[derive(Debug, Clone, Copy, PartialEq, Eq, Structural)]
pub struct LinearCoord {
    pub w_0: i64,
    pub w_1: i64,
}

impl LinearCoord {
    pub open spec fn wf(self) -> bool {
        0 <= self.w_0 && 0 <= self.w_1 && self.w_0 + self.w_1 == SCALE
    }

    pub fn new(w_0: i64, w_1: i64) -> (r: LinearCoord)
        ensures
            r == (LinearCoord { w_0, w_1 }),
    {
        LinearCoord { w_0, w_1 }
    }
}

/// Barycentric blend weights: three nonnegative fixed-point values summing
/// to one (`SCALE`).
///
/// Nonnegativity (convexity) narrows the weights beyond "summing to one":
/// it is a machine limit of the fixed-point representation.  An affine
/// combination with a negative weight can extrapolate a blend of `i64`
/// payloads outside the `i64` range, so such weights are kept out by
/// `wf`; the rasterizer only ever produces convex weights anyway, since
/// pixels outside the triangle yield no fragment.
#[derive(Debug, Clone, Copy, PartialEq, Eq, Structural)]
pub struct BaryCoord {
    pub w_0: i64,
    pub w_1: i64,
    pub w_2: i64,
}

impl BaryCoord {
    pub open spec fn wf(self) -> bool {
        0 <= self.w_0 && 0 <= self.w_1 && 0 <= self.w_2 && self.w_0 + self.w_1 + self.w_2
            == SCALE
    }

    pub fn new(w_0: i64, w_1: i64, w_2: i64) -> (r: BaryCoord)
        ensures
            r == (BaryCoord { w_0, w_1, w_2 }),
    {
        BaryCoord { w_0, w_1, w_2 }
    }
}

/// The weighted sum of two fixed-point values, floor-scaled back by `SCALE`.
pub open spec fn lerp2(v_0: int, v_1: int, w_0: int, w_1: int) -> int {
    (v_0 * w_0 + v_1 * w_1) / (SCALE as int)
}

/// The weighted sum of three fixed-point values, floor-scaled back by
/// `SCALE`.
pub open spec fn lerp3(v_0: int, v_1: int, v_2: int, w_0: int, w_1: int, w_2: int) -> int {
    (v_0 * w_0 + v_1 * w_1 + v_2 * w_2) / (SCALE as int)
}

proof fn lemma_lerp2_bounds(v_0: int, v_1: int, w_0: int, w_1: int)
    requires
        0 <= w_0,
        0 <= w_1,
        w_0 + w_1 == SCALE,
    ensures
        min(v_0, v_1) <= lerp2(v_0, v_1, w_0, w_1) <= max(v_0, v_1),
        v_0 == v_1 ==> lerp2(v_0, v_1, w_0, w_1) == v_0,
{
    let s = SCALE as int;
    let mn = min(v_0, v_1);
    let mx = max(v_0, v_1);
    let sum = v_0 * w_0 + v_1 * w_1;
    assert(s * mn <= sum <= s * mx) by (nonlinear_arith)
        requires
            0 <= w_0,
            0 <= w_1,
            w_0 + w_1 == s,
            mn <= v_0 <= mx,
            mn <= v_1 <= mx,
            sum == v_0 * w_0 + v_1 * w_1;
    lemma_div_is_ordered(s * mn, sum, s);
    lemma_div_is_ordered(sum, s * mx, s);
    lemma_div_multiples_vanish(mn, s);
    lemma_div_multiples_vanish(mx, s);
}

proof fn lemma_lerp3_bounds(v_0: int, v_1: int, v_2: int, w_0: int, w_1: int, w_2: int)
    requires
        0 <= w_0,
        0 <= w_1,
        0 <= w_2,
        w_0 + w_1 + w_2 == SCALE,
    ensures
        min(v_0, min(v_1, v_2)) <= lerp3(v_0, v_1, v_2, w_0, w_1, w_2) <= max(v_0, max(v_1, v_2)),
        v_0 == v_1 && v_0 == v_2 ==> lerp3(v_0, v_1, v_2, w_0, w_1, w_2) == v_0,
{
    let s = SCALE as int;
    let mn = min(v_0, min(v_1, v_2));
    let mx = max(v_0, max(v_1, v_2));
    let sum = v_0 * w_0 + v_1 * w_1 + v_2 * w_2;
    assert(s * mn <= sum <= s * mx) by (nonlinear_arith)
        requires
            0 <= w_0,
            0 <= w_1,
            0 <= w_2,
            w_0 + w_1 + w_2 == s,
            mn <= v_0 <= mx,
            mn <= v_1 <= mx,
            mn <= v_2 <= mx,
            sum == v_0 * w_0 + v_1 * w_1 + v_2 * w_2;
    lemma_div_is_ordered(s * mn, sum, s);
    lemma_div_is_ordered(sum, s * mx, s);
    lemma_div_multiples_vanish(mn, s);
    lemma_div_multiples_vanish(mx, s);
}

/// Blends two fixed-point scalars with 2D weights; the result stays between
/// the operands.
pub fn lerp2_exec(v_0: i64, v_1: i64, linear_coord: &LinearCoord) -> (r: i64)
    requires
        linear_coord.wf(),
    ensures
        r == lerp2(v_0 as int, v_1 as int, linear_coord.w_0 as int, linear_coord.w_1 as int),
        min(v_0 as int, v_1 as int) <= r <= max(v_0 as int, v_1 as int),
{
    proof {
        lemma_abs_product(v_0 as int, linear_coord.w_0 as int);
        lemma_abs_product(v_1 as int, linear_coord.w_1 as int);
        lemma_lerp2_bounds(
            v_0 as int,
            v_1 as int,
            linear_coord.w_0 as int,
            linear_coord.w_1 as int,
        );
    }
    let s: i128 = v_0 as i128 * linear_coord.w_0 as i128 + v_1 as i128 * linear_coord.w_1 as i128;
    let q = div_floor_i128(s, SCALE as i128);
    q as i64
}

/// Blends three fixed-point scalars with barycentric weights; the result
/// stays between the smallest and largest operand.
pub fn lerp3_exec(v_0: i64, v_1: i64, v_2: i64, bary_coord: &BaryCoord) -> (r: i64)
    requires
        bary_coord.wf(),
    ensures
        r == lerp3(
            v_0 as int,
            v_1 as int,
            v_2 as int,
            bary_coord.w_0 as int,
            bary_coord.w_1 as int,
            bary_coord.w_2 as int,
        ),
        min(v_0 as int, min(v_1 as int, v_2 as int)) <= r <= max(
            v_0 as int,
            max(v_1 as int, v_2 as int),
        ),
{
    proof {
        lemma_abs_product(v_0 as int, bary_coord.w_0 as int);
        lemma_abs_product(v_1 as int, bary_coord.w_1 as int);
        lemma_abs_product(v_2 as int, bary_coord.w_2 as int);
        lemma_lerp3_bounds(
            v_0 as int,
            v_1 as int,
            v_2 as int,
            bary_coord.w_0 as int,
            bary_coord.w_1 as int,
            bary_coord.w_2 as int,
        );
    }
    let s: i128 = v_0 as i128 * bary_coord.w_0 as i128 + v_1 as i128 * bary_coord.w_1 as i128
        + v_2 as i128 * bary_coord.w_2 as i128;
    let q = div_floor_i128(s, SCALE as i128);
    q as i64
}

/// The product of an `i64` payload and a weight in `[0, SCALE]` is far from
/// the `i128` range ends.
proof fn lemma_abs_product(v: int, w: int) by (nonlinear_arith)
    requires
        i64::MIN <= v <= i64::MAX,
        0 <= w <= SCALE,
    ensures
        -0x8000_0000_0000_0000_0000_0000 <= v * w <= 0x8000_0000_0000_0000_0000_0000,
{
}

/// A payload that can be blended across a line (2 sources) or a triangle
/// (3 sources).  Blending equal sources with any well-formed weights gives
/// that source back exactly, whatever the implementing type.  Weights are
/// required to be well-formed — nonnegative, summing to one — so that
/// blends of bounded payloads stay in range (see [`BaryCoord`]).
pub trait Interpolate: Sized {
    fn linear_interpolate(v_0: &Self, v_1: &Self, linear_coord: &LinearCoord) -> (r: Self)
        requires
            linear_coord.wf(),
        ensures
            v_0 == v_1 ==> r == *v_0,
    ;

    fn barycentric_interpolate(v_0: &Self, v_1: &Self, v_2: &Self, bary_coord: &BaryCoord) -> (r:
        Self)
        requires
            bary_coord.wf(),
        ensures
            v_0 == v_1 && v_0 == v_2 ==> r == *v_0,
    ;
}

/// Blends two payloads with 2D weights.
pub fn linear_interpolate<T: Interpolate>(v_0: &T, v_1: &T, linear_coord: &LinearCoord) -> (r: T)
    requires
        linear_coord.wf(),
    ensures
        v_0 == v_1 ==> r == *v_0,
{
    T::linear_interpolate(v_0, v_1, linear_coord)
}

/// Blends three payloads with barycentric weights.
pub fn barycentric_interpolate<T: Interpolate>(
    v_0: &T,
    v_1: &T,
    v_2: &T,
    bary_coord: &BaryCoord,
) -> (r: T)
    requires
        bary_coord.wf(),
    ensures
        v_0 == v_1 && v_0 == v_2 ==> r == *v_0,
{
    T::barycentric_interpolate(v_0, v_1, v_2, bary_coord)
}

/// The empty payload blends trivially.
impl Interpolate for () {
    fn linear_interpolate(v_0: &(), v_1: &(), linear_coord: &LinearCoord) {
    }

    fn barycentric_interpolate(v_0: &(), v_1: &(), v_2: &(), bary_coord: &BaryCoord) {
    }
}

/// Fixed-point scalars blend by the weighted sum itself.
impl Interpolate for i64 {
    fn linear_interpolate(v_0: &i64, v_1: &i64, linear_coord: &LinearCoord) -> (r: i64)
        ensures
            r == lerp2(*v_0 as int, *v_1 as int, linear_coord.w_0 as int, linear_coord.w_1 as int),
            min(*v_0 as int, *v_1 as int) <= r <= max(*v_0 as int, *v_1 as int),
    {
        lerp2_exec(*v_0, *v_1, linear_coord)
    }

    fn barycentric_interpolate(v_0: &i64, v_1: &i64, v_2: &i64, bary_coord: &BaryCoord) -> (r: i64)
        ensures
            r == lerp3(
                *v_0 as int,
                *v_1 as int,
                *v_2 as int,
                bary_coord.w_0 as int,
                bary_coord.w_1 as int,
                bary_coord.w_2 as int,
            ),
            min(*v_0 as int, min(*v_1 as int, *v_2 as int)) <= r <= max(
                *v_0 as int,
                max(*v_1 as int, *v_2 as int),
            ),
    {
        lerp3_exec(*v_0, *v_1, *v_2, bary_coord)
    }
}

/// Vectors blend component-wise.
impl Interpolate for Vec2 {
    fn linear_interpolate(v_0: &Vec2, v_1: &Vec2, linear_coord: &LinearCoord) -> (r: Vec2)
        ensures
            r.x == lerp2(v_0.x as int, v_1.x as int, linear_coord.w_0 as int, linear_coord.w_1 as int),
            r.y == lerp2(v_0.y as int, v_1.y as int, linear_coord.w_0 as int, linear_coord.w_1 as int),
    {
        Vec2 {
            x: lerp2_exec(v_0.x, v_1.x, linear_coord),
            y: lerp2_exec(v_0.y, v_1.y, linear_coord),
        }
    }

    fn barycentric_interpolate(v_0: &Vec2, v_1: &Vec2, v_2: &Vec2, bary_coord: &BaryCoord) -> (r:
        Vec2)
        ensures
            r.x == lerp3(
                v_0.x as int,
                v_1.x as int,
                v_2.x as int,
                bary_coord.w_0 as int,
                bary_coord.w_1 as int,
                bary_coord.w_2 as int,
            ),
            r.y == lerp3(
                v_0.y as int,
                v_1.y as int,
                v_2.y as int,
                bary_coord.w_0 as int,
                bary_coord.w_1 as int,
                bary_coord.w_2 as int,
            ),
    {
        Vec2 {
            x: lerp3_exec(v_0.x, v_1.x, v_2.x, bary_coord),
            y: lerp3_exec(v_0.y, v_1.y, v_2.y, bary_coord),
        }
    }
}

impl Interpolate for Vec3 {
    fn linear_interpolate(v_0: &Vec3, v_1: &Vec3, linear_coord: &LinearCoord) -> (r: Vec3)
        ensures
            r.x == lerp2(v_0.x as int, v_1.x as int, linear_coord.w_0 as int, linear_coord.w_1 as int),
            r.y == lerp2(v_0.y as int, v_1.y as int, linear_coord.w_0 as int, linear_coord.w_1 as int),
            r.z == lerp2(v_0.z as int, v_1.z as int, linear_coord.w_0 as int, linear_coord.w_1 as int),
    {
        Vec3 {
            x: lerp2_exec(v_0.x, v_1.x, linear_coord),
            y: lerp2_exec(v_0.y, v_1.y, linear_coord),
            z: lerp2_exec(v_0.z, v_1.z, linear_coord),
        }
    }

    fn barycentric_interpolate(v_0: &Vec3, v_1: &Vec3, v_2: &Vec3, bary_coord: &BaryCoord) -> (r:
        Vec3)
        ensures
            r.x == lerp3(
                v_0.x as int,
                v_1.x as int,
                v_2.x as int,
                bary_coord.w_0 as int,
                bary_coord.w_1 as int,
                bary_coord.w_2 as int,
            ),
            r.y == lerp3(
                v_0.y as int,
                v_1.y as int,
                v_2.y as int,
                bary_coord.w_0 as int,
                bary_coord.w_1 as int,
                bary_coord.w_2 as int,
            ),
            r.z == lerp3(
                v_0.z as int,
                v_1.z as int,
                v_2.z as int,
                bary_coord.w_0 as int,
                bary_coord.w_1 as int,
                bary_coord.w_2 as int,
            ),
    {
        Vec3 {
            x: lerp3_exec(v_0.x, v_1.x, v_2.x, bary_coord),
            y: lerp3_exec(v_0.y, v_1.y, v_2.y, bary_coord),
            z: lerp3_exec(v_0.z, v_1.z, v_2.z, bary_coord),
        }
    }
}

impl Interpolate for Vec4 {
    fn linear_interpolate(v_0: &Vec4, v_1: &Vec4, linear_coord: &LinearCoord) -> (r: Vec4)
        ensures
            r.x == lerp2(v_0.x as int, v_1.x as int, linear_coord.w_0 as int, linear_coord.w_1 as int),
            r.y == lerp2(v_0.y as int, v_1.y as int, linear_coord.w_0 as int, linear_coord.w_1 as int),
            r.z == lerp2(v_0.z as int, v_1.z as int, linear_coord.w_0 as int, linear_coord.w_1 as int),
            r.w == lerp2(v_0.w as int, v_1.w as int, linear_coord.w_0 as int, linear_coord.w_1 as int),
    {
        Vec4 {
            x: lerp2_exec(v_0.x, v_1.x, linear_coord),
            y: lerp2_exec(v_0.y, v_1.y, linear_coord),
            z: lerp2_exec(v_0.z, v_1.z, linear_coord),
            w: lerp2_exec(v_0.w, v_1.w, linear_coord),
        }
    }

    fn barycentric_interpolate(v_0: &Vec4, v_1: &Vec4, v_2: &Vec4, bary_coord: &BaryCoord) -> (r:
        Vec4)
        ensures
            r.x == lerp3(
                v_0.x as int,
                v_1.x as int,
                v_2.x as int,
                bary_coord.w_0 as int,
                bary_coord.w_1 as int,
                bary_coord.w_2 as int,
            ),
            r.y == lerp3(
                v_0.y as int,
                v_1.y as int,
                v_2.y as int,
                bary_coord.w_0 as int,
                bary_coord.w_1 as int,
                bary_coord.w_2 as int,
            ),
            r.z == lerp3(
                v_0.z as int,
                v_1.z as int,
                v_2.z as int,
                bary_coord.w_0 as int,
                bary_coord.w_1 as int,
                bary_coord.w_2 as int,
            ),
            r.w == lerp3(
                v_0.w as int,
                v_1.w as int,
                v_2.w as int,
                bary_coord.w_0 as int,
                bary_coord.w_1 as int,
                bary_coord.w_2 as int,
            ),
    {
        Vec4 {
            x: lerp3_exec(v_0.x, v_1.x, v_2.x, bary_coord),
            y: lerp3_exec(v_0.y, v_1.y, v_2.y, bary_coord),
            z: lerp3_exec(v_0.z, v_1.z, v_2.z, bary_coord),
            w: lerp3_exec(v_0.w, v_1.w, v_2.w, bary_coord),
        }
    }
}

} // verus!
