//! RGBA colors with fixed-point channels.
//!
//! A channel is an `i64` in `[0, SCALE]`, standing for the real interval
//! `[0, 1]`; `SCALE` is full intensity.  Conversion to and from the 8-bit
//! channels of an RGBA byte buffer is exact on round trips.

use crate::fixed::{clamp_unit, div_floor_i128, HALF_SCALE, SCALE};
use crate::interpolate::{lerp2, lerp2_exec, lerp3, lerp3_exec, BaryCoord, Interpolate, LinearCoord};
use vstd::arithmetic::div_mod::{
    lemma_div_multiples_vanish,
    lemma_div_is_ordered, lemma_div_pos_is_pos, lemma_fundamental_div_mod_converse,
};
use vstd::prelude::*;

verus! {

/// What clamping into `[0, SCALE]` leaves of a channel value.
pub open spec fn clamped(c: int) -> int {
    if c < 0 {
        0
    } else if c > SCALE {
        SCALE as int
    } else {
        c
    }
}

/// A byte channel scaled up to a fixed-point unit value.
pub open spec fn byte_to_unit(c: int) -> int {
    c * SCALE / 255
}

/// A fixed-point unit value scaled down to a byte channel.
///
/// The narrowing rounds to the nearest byte — a deliberate choice over
/// truncating the scaled value: rounding makes decoding a byte and
/// re-encoding it the identity ([`lemma_channel_round_trip`]), where
/// truncation would drop almost every channel by one.  A channel exactly
/// halfway between two bytes rounds up (one half becomes 128).
pub open spec fn unit_to_byte(v: int) -> int {
    (v * 255 + HALF_SCALE) / (SCALE as int)
}

/// Two colors blended channel-wise with 2D fixed-point weights.
pub open spec fn lerp2_color(c_0: Color, c_1: Color, w_0: int, w_1: int) -> Color {
    Color {
        r: lerp2(c_0.r as int, c_1.r as int, w_0, w_1) as i64,
        g: lerp2(c_0.g as int, c_1.g as int, w_0, w_1) as i64,
        b: lerp2(c_0.b as int, c_1.b as int, w_0, w_1) as i64,
        a: lerp2(c_0.a as int, c_1.a as int, w_0, w_1) as i64,
    }
}

#[derive(Debug, Clone, Copy, PartialEq, Eq, Structural)]
pub struct Color {
    pub r: i64,
    pub g: i64,
    pub b: i64,
    pub a: i64,
}

impl Color {
    /// Opaque black, as a specification value.
    pub open spec fn spec_black() -> Color {
        Color { r: 0i64, g: 0i64, b: 0i64, a: SCALE as i64 }
    }

    /// Opaque white, as a specification value.
    pub open spec fn spec_white() -> Color {
        Color { r: SCALE as i64, g: SCALE as i64, b: SCALE as i64, a: SCALE as i64 }
    }

    /// Every channel lies in `[0, SCALE]`.
    pub open spec fn wf(self) -> bool {
        0 <= self.r <= SCALE && 0 <= self.g <= SCALE && 0 <= self.b <= SCALE && 0 <= self.a
            <= SCALE
    }

    /// Builds a color from raw channel values, without clamping.
    pub fn new_const(r: i64, g: i64, b: i64, a: i64) -> (c: Color)
        ensures
            c == (Color { r, g, b, a }),
    {
        Color { r, g, b, a }
    }

    /// Builds a color, clamping every channel into `[0, SCALE]`.
    pub fn new(r: i64, g: i64, b: i64, a: i64) -> (c: Color)
        ensures
            c.r == clamped(r as int),
            c.g == clamped(g as int),
            c.b == clamped(b as int),
            c.a == clamped(a as int),
            c.wf(),
    {
        Color {
            r: clamp_unit(r),
            g: clamp_unit(g),
            b: clamp_unit(b),
            a: clamp_unit(a),
        }
    }

    /// A color with random, fully opaque channels.
    pub fn new_rand() -> (c: Color)
        ensures
            c.wf(),
            c.a == SCALE,
    {
        Color { r: rand_unit(), g: rand_unit(), b: rand_unit(), a: SCALE }
    }

    /// Opaque black.
    pub fn black() -> (c: Color)
        ensures
            c == (Color { r: 0i64, g: 0i64, b: 0i64, a: SCALE as i64 }),
            c.wf(),
    {
        Color { r: 0, g: 0, b: 0, a: SCALE }
    }

    /// Opaque red.
    pub fn red() -> (c: Color)
        ensures
            c == (Color { r: SCALE as i64, g: 0i64, b: 0i64, a: SCALE as i64 }),
            c.wf(),
    {
        Color { r: SCALE, g: 0, b: 0, a: SCALE }
    }

    /// Opaque green.
    pub fn green() -> (c: Color)
        ensures
            c == (Color { r: 0i64, g: SCALE as i64, b: 0i64, a: SCALE as i64 }),
            c.wf(),
    {
        Color { r: 0, g: SCALE, b: 0, a: SCALE }
    }

    /// Opaque blue.
    pub fn blue() -> (c: Color)
        ensures
            c == (Color { r: 0i64, g: 0i64, b: SCALE as i64, a: SCALE as i64 }),
            c.wf(),
    {
        Color { r: 0, g: 0, b: SCALE, a: SCALE }
    }

    /// Opaque white.
    pub fn white() -> (c: Color)
        ensures
            c == (Color { r: SCALE as i64, g: SCALE as i64, b: SCALE as i64, a: SCALE as i64 }),
            c.wf(),
    {
        Color { r: SCALE, g: SCALE, b: SCALE, a: SCALE }
    }

    /// Scales the color channels by a fixed-point factor; the alpha channel
    /// is kept.  A factor in `[0, 1]` keeps a well-formed color well-formed.
    pub fn mul(self, rhs: i64) -> (c: Color)
        requires
            self.wf(),
        ensures
            c.r == self.r * rhs / (SCALE as int),
            c.g == self.g * rhs / (SCALE as int),
            c.b == self.b * rhs / (SCALE as int),
            c.a == self.a,
            0 <= rhs <= SCALE ==> c.wf(),
    {
        Color {
            r: scale_channel(self.r, rhs),
            g: scale_channel(self.g, rhs),
            b: scale_channel(self.b, rhs),
            a: self.a,
        }
    }

    /// Adds the color channels of another color; the alpha channel is kept.
    /// The sum is not clamped: pass it through [`Color::new`] to saturate.
    pub fn add(self, rhs: Color) -> (c: Color)
        requires
            i64::MIN <= self.r + rhs.r <= i64::MAX,
            i64::MIN <= self.g + rhs.g <= i64::MAX,
            i64::MIN <= self.b + rhs.b <= i64::MAX,
        ensures
            c.r == self.r + rhs.r,
            c.g == self.g + rhs.g,
            c.b == self.b + rhs.b,
            c.a == self.a,
    {
        Color { r: self.r + rhs.r, g: self.g + rhs.g, b: self.b + rhs.b, a: self.a }
    }
}

impl Default for Color {
    /// The default color is opaque black.
    fn default() -> (c: Color)
        ensures
            c == (Color { r: 0i64, g: 0i64, b: 0i64, a: SCALE as i64 }),
    {
        Color::black()
    }
}

/// Colors blend channel-wise; blending well-formed colors stays well-formed.
impl Interpolate for Color {
    fn linear_interpolate(v_0: &Color, v_1: &Color, linear_coord: &LinearCoord) -> (c: Color)
        ensures
            c.r == lerp2(v_0.r as int, v_1.r as int, linear_coord.w_0 as int, linear_coord.w_1 as int),
            c.g == lerp2(v_0.g as int, v_1.g as int, linear_coord.w_0 as int, linear_coord.w_1 as int),
            c.b == lerp2(v_0.b as int, v_1.b as int, linear_coord.w_0 as int, linear_coord.w_1 as int),
            c.a == lerp2(v_0.a as int, v_1.a as int, linear_coord.w_0 as int, linear_coord.w_1 as int),
            v_0.wf() && v_1.wf() ==> c.wf(),
    {
        Color {
            r: lerp2_exec(v_0.r, v_1.r, linear_coord),
            g: lerp2_exec(v_0.g, v_1.g, linear_coord),
            b: lerp2_exec(v_0.b, v_1.b, linear_coord),
            a: lerp2_exec(v_0.a, v_1.a, linear_coord),
        }
    }

    fn barycentric_interpolate(v_0: &Color, v_1: &Color, v_2: &Color, bary_coord: &BaryCoord) -> (c:
        Color)
        ensures
            c.r == lerp3(
                v_0.r as int,
                v_1.r as int,
                v_2.r as int,
                bary_coord.w_0 as int,
                bary_coord.w_1 as int,
                bary_coord.w_2 as int,
            ),
            c.g == lerp3(
                v_0.g as int,
                v_1.g as int,
                v_2.g as int,
                bary_coord.w_0 as int,
                bary_coord.w_1 as int,
                bary_coord.w_2 as int,
            ),
            c.b == lerp3(
                v_0.b as int,
                v_1.b as int,
                v_2.b as int,
                bary_coord.w_0 as int,
                bary_coord.w_1 as int,
                bary_coord.w_2 as int,
            ),
            c.a == lerp3(
                v_0.a as int,
                v_1.a as int,
                v_2.a as int,
                bary_coord.w_0 as int,
                bary_coord.w_1 as int,
                bary_coord.w_2 as int,
            ),
            v_0.wf() && v_1.wf() && v_2.wf() ==> c.wf(),
    {
        Color {
            r: lerp3_exec(v_0.r, v_1.r, v_2.r, bary_coord),
            g: lerp3_exec(v_0.g, v_1.g, v_2.g, bary_coord),
            b: lerp3_exec(v_0.b, v_1.b, v_2.b, bary_coord),
            a: lerp3_exec(v_0.a, v_1.a, v_2.a, bary_coord),
        }
    }
}

/// The product of a unit-range channel and an arbitrary fixed-point
/// factor, scaled back; the result never exceeds the factor in magnitude.
fn scale_channel(a: i64, b: i64) -> (r: i64)
    requires
        0 <= a <= SCALE,
    ensures
        r == a * b / (SCALE as int),
        0 <= b ==> 0 <= r <= b,
        b < 0 ==> b <= r <= 0,
{
    proof {
        if b >= 0 {
            assert(0 <= a as int * b <= SCALE as int * b) by (nonlinear_arith)
                requires
                    0 <= a <= SCALE,
                    0 <= b;
            lemma_div_pos_is_pos(a as int * b, SCALE as int);
            lemma_div_is_ordered(a as int * b, SCALE as int * b, SCALE as int);
            lemma_div_multiples_vanish(b as int, SCALE as int);
        } else {
            assert(SCALE as int * b <= a as int * b <= 0) by (nonlinear_arith)
                requires
                    0 <= a <= SCALE,
                    b < 0;
            lemma_div_is_ordered(SCALE as int * b, a as int * b, SCALE as int);
            lemma_div_is_ordered(a as int * b, 0, SCALE as int);
            lemma_div_multiples_vanish(b as int, SCALE as int);
            vstd::arithmetic::div_mod::lemma_div_of0(SCALE as int);
        }
    }
    div_floor_i128(a as i128 * b as i128, SCALE as i128) as i64
}

/// Relies on `rand::Rng::gen_range` over `0..=SCALE`: the sample lies within
/// the requested (non-empty) range.
#[verifier::external_body]
fn rand_unit() -> (r: i64)
    ensures
        0 <= r <= SCALE,
{
    let mut rng = rand::thread_rng();
    rand::Rng::gen_range(&mut rng, 0..=SCALE)
}

/// Widens a byte channel to a fixed-point unit value.
pub fn channel_from_byte(c: u8) -> (r: i64)
    ensures
        r == byte_to_unit(c as int),
        0 <= r <= SCALE,
{
    proof {
        lemma_div_pos_is_pos(c as int * SCALE, 255);
        lemma_div_is_ordered(c as int * SCALE, 255 * SCALE, 255);
        lemma_div_multiples_vanish(SCALE as int, 255);
    }
    div_floor_i128(c as i128 * SCALE as i128, 255) as i64
}

/// Narrows a fixed-point unit value to a byte channel, rounding to the
/// nearest byte (see [`unit_to_byte`] for why rounding, not truncation).
pub fn channel_to_byte(v: i64) -> (r: u8)
    requires
        0 <= v <= SCALE,
    ensures
        r == unit_to_byte(v as int),
{
    proof {
        lemma_div_pos_is_pos(v as int * 255 + HALF_SCALE, SCALE as int);
        lemma_div_is_ordered(v as int * 255 + HALF_SCALE, SCALE as int * 255 + HALF_SCALE, SCALE as int);
        lemma_fundamental_div_mod_converse(
            SCALE as int * 255 + HALF_SCALE,
            SCALE as int,
            255,
            HALF_SCALE as int,
        );
    }
    div_floor_i128(v as i128 * 255 + HALF_SCALE as i128, SCALE as i128) as u8
}

/// Scaling a byte channel up to a unit value and back down returns the
/// original byte: the 8-bit content of a texture survives the trip through
/// fixed point.
pub proof fn lemma_channel_round_trip(c: int)
    requires
        0 <= c <= 255,
    ensures
        unit_to_byte(byte_to_unit(c)) == c,
{
    if c < 255 {
        // c * SCALE == 255 * (257 * c) + c, so byte_to_unit(c) == 257 * c.
        assert(c * SCALE == (257 * c) * 255 + c) by (nonlinear_arith);
        lemma_fundamental_div_mod_converse(c * SCALE, 255, 257 * c, c);
        // (257 * c) * 255 + HALF_SCALE == SCALE * c + (HALF_SCALE - c).
        assert((257 * c) * 255 + HALF_SCALE == c * (SCALE as int) + (HALF_SCALE - c))
            by (nonlinear_arith);
        lemma_fundamental_div_mod_converse(
            (257 * c) * 255 + HALF_SCALE,
            SCALE as int,
            c,
            HALF_SCALE - c,
        );
    } else {
        // 255 scales to exactly one unit, which scales back to 255.
        lemma_div_multiples_vanish(SCALE as int, 255);
        lemma_fundamental_div_mod_converse(
            SCALE as int * 255 + HALF_SCALE,
            SCALE as int,
            255,
            HALF_SCALE as int,
        );
    }
}

} // verus!
