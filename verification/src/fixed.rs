//! Fixed-point scalars.
//!
//! A coordinate, depth value, color channel or interpolation weight is an
//! `i64` counting `SCALE`-ths of a unit: the value `SCALE` stands for 1.0,
//! `HALF_SCALE` for 0.5, and so on.  All divisions in the crate round toward
//! negative infinity (floor), matching the mathematical `/` of the
//! specifications, and are implemented here over unsigned machine division.

use vstd::arithmetic::div_mod::{
    lemma_fundamental_div_mod, lemma_fundamental_div_mod_converse, lemma_mod_bound,
};
use vstd::prelude::*;

verus! {

/// Number of fixed-point units in one pixel (or one unit of uv/clip space).
pub const SCALE: i64 = 65536;

/// Half a unit: used for round-to-nearest.
pub const HALF_SCALE: i64 = 32768;

/// Bound on the magnitude of any coordinate handed to the geometry routines
/// (1024 pixels on either side of the origin).  Keeping coordinates within
/// this range lets every intermediate product of the barycentric solve fit
/// in an `i128`.
pub const COORD_LIMIT: i64 = 67108864;

/// The floor quotient of a dividend by a positive divisor stays between the
/// dividend and zero.
pub proof fn lemma_div_fits(a: int, b: int)
    requires
        0 < b,
    ensures
        a < 0 ==> a <= a / b <= 0,
        a >= 0 ==> 0 <= a / b <= a,
{
    lemma_fundamental_div_mod(a, b);
    if a >= 0 {
        vstd::arithmetic::div_mod::lemma_div_nonincreasing(a, b);
        vstd::arithmetic::div_mod::lemma_div_pos_is_pos(a, b);
    } else {
        let q = a / b;
        let r = a % b;
        lemma_mod_bound(a, b);
        assert(a <= q <= 0) by (nonlinear_arith)
            requires
                a == b * q + r,
                0 <= r < b,
                a < 0;
    }
}

/// Floor division of `a` by a positive divisor `b`.
pub fn div_floor_i128(a: i128, b: i128) -> (q: i128)
    requires
        0 < b,
        i128::MIN < a,
    ensures
        q == a as int / b as int,
{
    if a >= 0 {
        let q0: u128 = (a as u128) / (b as u128);
        proof {
            lemma_div_fits(a as int, b as int);
        }
        q0 as i128
    } else {
        let na: u128 = (-a) as u128;
        let nb: u128 = b as u128;
        let q0: u128 = na / nb;
        let r: u128 = na % nb;
        proof {
            lemma_fundamental_div_mod(na as int, nb as int);
            lemma_div_fits(na as int, nb as int);
            lemma_mod_bound(na as int, nb as int);
            // na == nb * q0 + r, so a == -na == (-q0) * b - r.
        }
        if r == 0 {
            proof {
                assert(a == (-(q0 as int)) * b + 0) by (nonlinear_arith)
                    requires
                        na as int == nb as int * (q0 as int) + r,
                        r == 0,
                        a as int == -(na as int),
                        nb as int == b as int;
                lemma_fundamental_div_mod_converse(a as int, b as int, -(q0 as int), 0);
            }
            -(q0 as i128)
        } else {
            proof {
                assert(a == (-(q0 as int) - 1) * b + (b - r)) by (nonlinear_arith)
                    requires
                        na as int == nb as int * (q0 as int) + r,
                        a as int == -(na as int),
                        nb as int == b as int;
                assert(0 <= b - r < b);
                lemma_fundamental_div_mod_converse(a as int, b as int, -(q0 as int) - 1, b - r);
            }
            -(q0 as i128) - 1
        }
    }
}

/// Floor division of `a` by a positive divisor `b`, on `i64`.
pub fn div_floor(a: i64, b: i64) -> (q: i64)
    requires
        0 < b,
    ensures
        q == a as int / b as int,
{
    let q = div_floor_i128(a as i128, b as i128);
    proof {
        lemma_div_fits(a as int, b as int);
    }
    q as i64
}

/// Euclidean remainder of `a` modulo a positive modulus `b`: the result is
/// always in `[0, b)`.
pub fn rem_floor(a: i64, b: i64) -> (r: i64)
    requires
        0 < b,
    ensures
        r == a as int % b as int,
        0 <= r < b,
{
    let q = div_floor_i128(a as i128, b as i128);
    proof {
        lemma_fundamental_div_mod(a as int, b as int);
        lemma_mod_bound(a as int, b as int);
    }
    (a as i128 - b as i128 * q) as i64
}

/// Rounds a fixed-point value to the nearest integer pixel (halves round up).
pub fn round_to_int(a: i64) -> (r: i64)
    requires
        -COORD_LIMIT <= a <= COORD_LIMIT,
    ensures
        r == (a + HALF_SCALE) as int / SCALE as int,
{
    let q = div_floor_i128(a as i128 + HALF_SCALE as i128, SCALE as i128);
    proof {
        lemma_div_fits(a + HALF_SCALE, SCALE as int);
    }
    q as i64
}

/// Clamps a fixed-point value into `[0, SCALE]` (the range standing for the
/// real interval `[0, 1]`).
pub fn clamp_unit(a: i64) -> (r: i64)
    ensures
        r == if a < 0 { 0int } else if a > SCALE { SCALE as int } else { a as int },
        0 <= r <= SCALE,
{
    if a < 0 {
        0
    } else if a > SCALE {
        SCALE
    } else {
        a
    }
}

} // verus!
