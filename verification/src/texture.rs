//! Textures: width × height grids of texels in flat row-major storage, with
//! nearest and bilinear sampling under clamp or wrap edge behavior.

use crate::color::{byte_to_unit, clamped, lerp2_color, Color};
use crate::fixed::{div_floor, rem_floor, HALF_SCALE, SCALE};
use crate::interpolate::{Interpolate, LinearCoord};
use crate::vector::Vec2;
use vstd::arithmetic::div_mod::{
    lemma_div_is_ordered, lemma_div_pos_is_pos, lemma_fundamental_div_mod_converse,
    lemma_mod_add_multiples_vanish,
};
use vstd::math::min;
use vstd::prelude::*;

verus! {

/// How a continuous uv coordinate picks texels.
#[derive(Debug, Clone, Copy, PartialEq, Eq, Structural)]
pub enum SamplingMethod {
    Nearest,
    Bilinear,
}

/// What happens to a uv coordinate outside `[0, 1]`.
#[derive(Debug, Clone, Copy, PartialEq, Eq, Structural)]
pub enum EdgeBehavior {
    Clamp,
    Wrap,
}

impl EdgeBehavior {
    /// The in-range coordinate an out-of-range one maps to: saturated for
    /// `Clamp`, reduced modulo one full turn for `Wrap` (negative values
    /// wrap around to the high end).
    pub open spec fn spec_edge(self, v: int) -> int {
        match self {
            EdgeBehavior::Clamp => clamped(v),
            EdgeBehavior::Wrap => v % (SCALE as int),
        }
    }

    fn edge(self, uv: &Vec2) -> (r: Vec2)
        ensures
            r.x == self.spec_edge(uv.x as int),
            r.y == self.spec_edge(uv.y as int),
            0 <= r.x <= SCALE,
            0 <= r.y <= SCALE,
    {
        match self {
            EdgeBehavior::Clamp => Vec2 {
                x: crate::fixed::clamp_unit(uv.x),
                y: crate::fixed::clamp_unit(uv.y),
            },
            EdgeBehavior::Wrap => Vec2 { x: rem_floor(uv.x, SCALE), y: rem_floor(uv.y, SCALE) },
        }
    }
}

/// Wrapping is periodic: a uv coordinate one full turn away picks the same
/// texels.
pub proof fn lemma_wrap_periodic(v: int)
    ensures
        EdgeBehavior::Wrap.spec_edge(v + SCALE) == EdgeBehavior::Wrap.spec_edge(v),
{
    lemma_mod_add_multiples_vanish(v, SCALE as int);
}

/// The texel nearest to coordinate `u` along an axis of `dim` texels.
pub open spec fn nearest_idx(u: int, dim: int) -> int {
    (u * (dim - 1) + HALF_SCALE) / (SCALE as int)
}

/// The low texel of the bilinear pair along an axis of `dim` texels,
/// clamped so that its right neighbor stays in bounds.
pub open spec fn bilinear_lo(u: int, dim: int) -> int {
    min((u * (dim - 1)) / (SCALE as int), dim - 2)
}

/// The fractional offset of `u` past [`bilinear_lo`], in `[0, SCALE]`.
pub open spec fn bilinear_frac(u: int, dim: int) -> int {
    u * (dim - 1) - bilinear_lo(u, dim) * SCALE
}

#[derive(Debug)]
pub struct Texture<T> {
    pub width: u32,
    pub height: u32,
    pub data: Vec<T>,
}

/// The flat row-major position of texel `(x, y)`.
pub open spec fn texel_index(width: int, x: int, y: int) -> int {
    x + y * width
}

/// Texel positions inside the grid stay inside the flat storage.
pub proof fn lemma_texel_index_bound(width: int, height: int, x: int, y: int)
    by (nonlinear_arith)
    requires
        0 <= x < width,
        0 <= y < height,
    ensures
        0 <= texel_index(width, x, y) < width * height,
{
}

/// Distinct texel positions occupy distinct flat positions.
pub proof fn lemma_texel_index_injective(width: int, x_1: int, y_1: int, x_2: int, y_2: int)
    by (nonlinear_arith)
    requires
        0 <= x_1 < width,
        0 <= x_2 < width,
        0 <= y_1,
        0 <= y_2,
        texel_index(width, x_1, y_1) == texel_index(width, x_2, y_2),
    ensures
        x_1 == x_2 && y_1 == y_2,
{
}

impl<T: Copy> Texture<T> {
    /// The flat storage holds exactly one texel per grid cell.
    pub open spec fn wf(self) -> bool {
        self.data.len() == self.width * self.height
    }

    /// The texel stored at `(x, y)`.
    pub open spec fn spec_texel(self, x: int, y: int) -> T {
        self.data[texel_index(self.width as int, x, y)]
    }

    /// A texture with every texel set to `fill`.
    pub fn new(width: u32, height: u32, fill: T) -> (t: Texture<T>)
        requires
            width * height <= usize::MAX,
        ensures
            t.width == width,
            t.height == height,
            t.wf(),
            forall|x: int, y: int|
                0 <= x < width && 0 <= y < height ==> t.spec_texel(x, y) == fill,
            forall|j: int| 0 <= j < t.data.len() ==> t.data[j] == fill,
    {
        let total: usize = (width as usize) * (height as usize);
        let mut data: Vec<T> = Vec::new();
        let mut i: usize = 0;
        while i < total
            invariant
                data.len() == i,
                i <= total,
                forall|j: int| 0 <= j < i ==> data[j] == fill,
            decreases total - i,
        {
            data.push(fill);
            i = i + 1;
        }
        proof {
            assert forall|x: int, y: int| 0 <= x < width && 0 <= y < height implies #[trigger]
                texel_index(width as int, x, y) < width * height && texel_index(
                width as int,
                x,
                y,
            ) >= 0 by {
                lemma_texel_index_bound(width as int, height as int, x, y);
            }
        }
        Texture { width, height, data }
    }

    /// Resets every texel to `value`, keeping the dimensions.
    pub fn fill(&mut self, value: T)
        requires
            old(self).wf(),
        ensures
            final(self).width == old(self).width,
            final(self).height == old(self).height,
            final(self).wf(),
            forall|x: int, y: int|
                0 <= x < old(self).width && 0 <= y < old(self).height ==> final(self).spec_texel(
                    x,
                    y,
                ) == value,
            forall|j: int| 0 <= j < final(self).data.len() ==> final(self).data[j] == value,
    {
        let total: usize = self.data.len();
        let mut i: usize = 0;
        while i < total
            invariant
                self.width == old(self).width,
                self.height == old(self).height,
                self.data.len() == total,
                total == old(self).data.len(),
                i <= total,
                forall|j: int| 0 <= j < i ==> self.data[j] == value,
            decreases total - i,
        {
            self.data.set(i, value);
            i = i + 1;
        }
        proof {
            assert forall|x: int, y: int|
                0 <= x < self.width && 0 <= y < self.height implies 0 <= #[trigger] texel_index(
                self.width as int,
                x,
                y,
            ) < self.width * self.height by {
                lemma_texel_index_bound(self.width as int, self.height as int, x, y);
            }
        }
    }

    /// Reads the texel at `p`.
    pub fn get_texel(&self, p: &Vec2) -> (r: T)
        requires
            self.wf(),
            0 <= p.x < self.width,
            0 <= p.y < self.height,
        ensures
            r == self.spec_texel(p.x as int, p.y as int),
    {
        proof {
            lemma_texel_index_bound(
                self.width as int,
                self.height as int,
                p.x as int,
                p.y as int,
            );
        }
        let idx: usize = (p.x as usize) + (p.y as usize) * (self.width as usize);
        self.data[idx]
    }

    /// Overwrites the texel at `p`; every other texel keeps its value.
    pub fn set_texel(&mut self, p: &Vec2, value: T)
        requires
            old(self).wf(),
            0 <= p.x < old(self).width,
            0 <= p.y < old(self).height,
        ensures
            final(self).width == old(self).width,
            final(self).height == old(self).height,
            final(self).wf(),
            final(self).spec_texel(p.x as int, p.y as int) == value,
            forall|x: int, y: int|
                0 <= x < old(self).width && 0 <= y < old(self).height && !(x == p.x && y == p.y)
                    ==> final(self).spec_texel(x, y) == old(self).spec_texel(x, y),
            final(self).data@ == old(self).data@.update(
                texel_index(old(self).width as int, p.x as int, p.y as int),
                value,
            ),
    {
        proof {
            lemma_texel_index_bound(
                self.width as int,
                self.height as int,
                p.x as int,
                p.y as int,
            );
        }
        let idx: usize = (p.x as usize) + (p.y as usize) * (self.width as usize);
        self.data.set(idx, value);
        proof {
            assert forall|x: int, y: int|
                0 <= x < self.width && 0 <= y < self.height && !(x == p.x && y == p.y) implies
                self.data[#[trigger] texel_index(self.width as int, x, y)] == old(
                self,
            ).data[texel_index(self.width as int, x, y)] by {
                lemma_texel_index_bound(self.width as int, self.height as int, x, y);
                if texel_index(self.width as int, x, y) == texel_index(
                    self.width as int,
                    p.x as int,
                    p.y as int,
                ) {
                    lemma_texel_index_injective(
                        self.width as int,
                        x,
                        y,
                        p.x as int,
                        p.y as int,
                    );
                }
            }
        }
    }
}

impl Texture<Color> {
    /// Samples the texture at a continuous uv coordinate (`SCALE` stands
    /// for 1.0 on each axis).  The edge behavior first maps the coordinate
    /// into `[0, 1]`; `Nearest` then picks the closest texel, `Bilinear`
    /// blends the four neighboring texels, weighting each corner by the
    /// product of its fractional distances (done as two linear blends).
    pub fn sample(&self, uv: &Vec2, method: SamplingMethod, edge: EdgeBehavior) -> (c: Color)
        requires
            self.wf(),
            self.width >= 1,
            self.height >= 1,
            method is Bilinear ==> self.width >= 2 && self.height >= 2,
        ensures
            method is Nearest ==> c == self.spec_texel(
                nearest_idx(edge.spec_edge(uv.x as int), self.width as int),
                nearest_idx(edge.spec_edge(uv.y as int), self.height as int),
            ),
            method is Bilinear ==> c == self.spec_bilinear(
                edge.spec_edge(uv.x as int),
                edge.spec_edge(uv.y as int),
            ),
    {
        let uv = edge.edge(uv);
        match method {
            SamplingMethod::Nearest => {
                proof {
                    lemma_nearest_in_bounds(uv.x as int, self.width as int);
                    lemma_nearest_in_bounds(uv.y as int, self.height as int);
                }
                let x = div_floor(uv.x * (self.width as i64 - 1) + HALF_SCALE, SCALE);
                let y = div_floor(uv.y * (self.height as i64 - 1) + HALF_SCALE, SCALE);
                self.get_texel(&Vec2 { x, y })
            },
            SamplingMethod::Bilinear => {
                proof {
                    lemma_bilinear_in_bounds(uv.x as int, self.width as int);
                    lemma_bilinear_in_bounds(uv.y as int, self.height as int);
                }
                let xs = uv.x * (self.width as i64 - 1);
                let ys = uv.y * (self.height as i64 - 1);
                let x_0 = {
                    let f = div_floor(xs, SCALE);
                    if f <= self.width as i64 - 2 {
                        f
                    } else {
                        self.width as i64 - 2
                    }
                };
                let y_0 = {
                    let f = div_floor(ys, SCALE);
                    if f <= self.height as i64 - 2 {
                        f
                    } else {
                        self.height as i64 - 2
                    }
                };
                let dx = xs - x_0 * SCALE;
                let dy = ys - y_0 * SCALE;
                let cx = LinearCoord { w_0: SCALE - dx, w_1: dx };
                let cy = LinearCoord { w_0: SCALE - dy, w_1: dy };
                let t_00 = self.get_texel(&Vec2 { x: x_0, y: y_0 });
                let t_10 = self.get_texel(&Vec2 { x: x_0 + 1, y: y_0 });
                let t_01 = self.get_texel(&Vec2 { x: x_0, y: y_0 + 1 });
                let t_11 = self.get_texel(&Vec2 { x: x_0 + 1, y: y_0 + 1 });
                let row_0 = Color::linear_interpolate(&t_00, &t_10, &cx);
                let row_1 = Color::linear_interpolate(&t_01, &t_11, &cx);
                Color::linear_interpolate(&row_0, &row_1, &cy)
            },
        }
    }

    /// What bilinear sampling at an in-range uv coordinate yields: the two
    /// rows around it blended along x, then blended along y.
    pub open spec fn spec_bilinear(self, u: int, v: int) -> Color {
        let x_0 = bilinear_lo(u, self.width as int);
        let y_0 = bilinear_lo(v, self.height as int);
        let dx = bilinear_frac(u, self.width as int);
        let dy = bilinear_frac(v, self.height as int);
        let row_0 = lerp2_color(
            self.spec_texel(x_0, y_0),
            self.spec_texel(x_0 + 1, y_0),
            SCALE - dx,
            dx,
        );
        let row_1 = lerp2_color(
            self.spec_texel(x_0, y_0 + 1),
            self.spec_texel(x_0 + 1, y_0 + 1),
            SCALE - dx,
            dx,
        );
        lerp2_color(row_0, row_1, SCALE - dy, dy)
    }
}

/// The channel layout of decoded 8-bit image data, as the mesh loader
/// hands it over: one gray channel, three color channels, or four color
/// and alpha channels per texel.
#[derive(Debug, Clone, Copy, PartialEq, Eq, Structural)]
pub enum PixelFormat {
    R8,
    Rgb8,
    Rgba8,
}

/// Bytes per texel of a pixel format.
pub open spec fn stride_of(format: PixelFormat) -> int {
    match format {
        PixelFormat::R8 => 1,
        PixelFormat::Rgb8 => 3,
        PixelFormat::Rgba8 => 4,
    }
}

/// The color decoded from the bytes of one texel starting at `base`:
/// gray replicated across the color channels, and full alpha where the
/// format carries none.
pub open spec fn spec_decoded_texel(format: PixelFormat, pixels: Seq<u8>, base: int) -> Color {
    match format {
        PixelFormat::R8 => Color {
            r: byte_to_unit(pixels[base] as int) as i64,
            g: byte_to_unit(pixels[base] as int) as i64,
            b: byte_to_unit(pixels[base] as int) as i64,
            a: SCALE as i64,
        },
        PixelFormat::Rgb8 => Color {
            r: byte_to_unit(pixels[base] as int) as i64,
            g: byte_to_unit(pixels[base + 1] as int) as i64,
            b: byte_to_unit(pixels[base + 2] as int) as i64,
            a: SCALE as i64,
        },
        PixelFormat::Rgba8 => Color {
            r: byte_to_unit(pixels[base] as int) as i64,
            g: byte_to_unit(pixels[base + 1] as int) as i64,
            b: byte_to_unit(pixels[base + 2] as int) as i64,
            a: byte_to_unit(pixels[base + 3] as int) as i64,
        },
    }
}

/// Flat texel positions keep their byte windows inside the byte buffer.
proof fn lemma_stride_window(stride: int, t: int, total: int)
    by (nonlinear_arith)
    requires
        1 <= stride,
        0 <= t < total,
    ensures
        0 <= stride * t,
        stride * t + stride <= stride * total,
        stride * (t + 1) == stride * t + stride,
{
}

impl Texture<Color> {
    /// Every texel has all channels in `[0, SCALE]`.
    pub open spec fn all_texels_wf(self) -> bool {
        forall|j: int| 0 <= j < self.data.len() ==> (#[trigger] self.data[j]).wf()
    }

    /// Decodes a texture from the flat bytes of an 8-bit image: one texel
    /// per `stride_of(format)` bytes, row-major.
    pub fn from_channels(pixels: &Vec<u8>, width: u32, height: u32, format: PixelFormat) -> (t:
        Texture<Color>)
        requires
            pixels.len() == stride_of(format) * (width * height),
        ensures
            t.width == width,
            t.height == height,
            t.wf(),
            t.all_texels_wf(),
            forall|x: int, y: int|
                0 <= x < width && 0 <= y < height ==> t.spec_texel(x, y) == spec_decoded_texel(
                    format,
                    pixels@,
                    stride_of(format) * texel_index(width as int, x, y),
                ),
    {
        let stride: usize = match format {
            PixelFormat::R8 => 1,
            PixelFormat::Rgb8 => 3,
            PixelFormat::Rgba8 => 4,
        };
        proof {
            assert(width as int * height <= usize::MAX) by (nonlinear_arith)
                requires
                    1 <= stride,
                    stride as int * (width as int * height) <= usize::MAX,
                    0 <= width as int * height;
        }
        let total: usize = (width as usize) * (height as usize);
        let mut data: Vec<Color> = Vec::new();
        let mut t: usize = 0;
        while t < total
            invariant
                data.len() == t,
                t <= total,
                stride == stride_of(format),
                pixels.len() == stride_of(format) * (width * height),
                total == width * height,
                forall|j: int|
                    0 <= j < t ==> #[trigger] data[j] == spec_decoded_texel(
                        format,
                        pixels@,
                        stride_of(format) * j,
                    ) && data[j].wf(),
            decreases total - t,
        {
            proof {
                lemma_stride_window(stride as int, t as int, total as int);
            }
            let base: usize = stride * t;
            let texel = match format {
                PixelFormat::R8 => {
                    let v = crate::color::channel_from_byte(pixels[base]);
                    Color { r: v, g: v, b: v, a: SCALE }
                },
                PixelFormat::Rgb8 => Color {
                    r: crate::color::channel_from_byte(pixels[base]),
                    g: crate::color::channel_from_byte(pixels[base + 1]),
                    b: crate::color::channel_from_byte(pixels[base + 2]),
                    a: SCALE,
                },
                PixelFormat::Rgba8 => Color {
                    r: crate::color::channel_from_byte(pixels[base]),
                    g: crate::color::channel_from_byte(pixels[base + 1]),
                    b: crate::color::channel_from_byte(pixels[base + 2]),
                    a: crate::color::channel_from_byte(pixels[base + 3]),
                },
            };
            data.push(texel);
            t = t + 1;
        }
        proof {
            assert forall|x: int, y: int| 0 <= x < width && 0 <= y < height implies 0 <= #[trigger]
                texel_index(width as int, x, y) < width * height by {
                lemma_texel_index_bound(width as int, height as int, x, y);
            }
        }
        Texture { width, height, data }
    }

    /// Decodes a texture from a flat RGBA byte buffer, four bytes per
    /// texel.
    pub fn from_vec_u8(data: &Vec<u8>, width: u32, height: u32) -> (t: Texture<Color>)
        requires
            data.len() == 4 * (width * height),
        ensures
            t.width == width,
            t.height == height,
            t.wf(),
            t.all_texels_wf(),
            forall|x: int, y: int|
                0 <= x < width && 0 <= y < height ==> t.spec_texel(x, y) == spec_decoded_texel(
                    PixelFormat::Rgba8,
                    data@,
                    4 * texel_index(width as int, x, y),
                ),
    {
        Texture::from_channels(data, width, height, PixelFormat::Rgba8)
    }

    /// Encodes the texture as a flat RGBA byte buffer, four bytes per
    /// texel, rounding each channel to the nearest byte (not truncating:
    /// see [`crate::color::unit_to_byte`]), so that decoding the result
    /// restores this texture exactly.
    pub fn to_vec_u8(&self) -> (r: Vec<u8>)
        requires
            self.wf(),
            self.all_texels_wf(),
        ensures
            r.len() == 4 * (self.width * self.height),
            forall|x: int, y: int|
                0 <= x < self.width && 0 <= y < self.height ==> {
                    let base = 4 * #[trigger] texel_index(self.width as int, x, y);
                    let c = self.spec_texel(x, y);
                    &&& r[base] == crate::color::unit_to_byte(c.r as int)
                    &&& r[base + 1] == crate::color::unit_to_byte(c.g as int)
                    &&& r[base + 2] == crate::color::unit_to_byte(c.b as int)
                    &&& r[base + 3] == crate::color::unit_to_byte(c.a as int)
                },
    {
        let total: usize = self.data.len();
        let mut out: Vec<u8> = Vec::new();
        let mut t: usize = 0;
        while t < total
            invariant
                self.wf(),
                self.all_texels_wf(),
                out.len() == 4 * t,
                t <= total,
                total == self.data.len(),
                forall|j: int|
                    0 <= j < t ==> {
                        let c = #[trigger] self.data[j];
                        &&& out[4 * j] == crate::color::unit_to_byte(c.r as int)
                        &&& out[4 * j + 1] == crate::color::unit_to_byte(c.g as int)
                        &&& out[4 * j + 2] == crate::color::unit_to_byte(c.b as int)
                        &&& out[4 * j + 3] == crate::color::unit_to_byte(c.a as int)
                    },
            decreases total - t,
        {
            let c = self.data[t];
            out.push(crate::color::channel_to_byte(c.r));
            out.push(crate::color::channel_to_byte(c.g));
            out.push(crate::color::channel_to_byte(c.b));
            out.push(crate::color::channel_to_byte(c.a));
            t = t + 1;
        }
        proof {
            assert forall|x: int, y: int| 0 <= x < self.width && 0 <= y < self.height implies 0
                <= #[trigger] texel_index(self.width as int, x, y) < self.width * self.height by {
                lemma_texel_index_bound(self.width as int, self.height as int, x, y);
            }
        }
        out
    }
}

/// Blending with full weight on the first operand returns it exactly.
proof fn lemma_lerp2_color_first(c_0: Color, c_1: Color)
    ensures
        lerp2_color(c_0, c_1, SCALE as int, 0) == c_0,
{
    lemma_lerp2_full(c_0.r as int, c_1.r as int);
    lemma_lerp2_full(c_0.g as int, c_1.g as int);
    lemma_lerp2_full(c_0.b as int, c_1.b as int);
    lemma_lerp2_full(c_0.a as int, c_1.a as int);
}

/// Blending with full weight on the second operand returns it exactly.
proof fn lemma_lerp2_color_second(c_0: Color, c_1: Color)
    ensures
        lerp2_color(c_0, c_1, 0, SCALE as int) == c_1,
{
    lemma_lerp2_full(c_1.r as int, c_0.r as int);
    lemma_lerp2_full(c_1.g as int, c_0.g as int);
    lemma_lerp2_full(c_1.b as int, c_0.b as int);
    lemma_lerp2_full(c_1.a as int, c_0.a as int);
}

/// A weighted sum with all weight on `a` floors back to `a` exactly.
proof fn lemma_lerp2_full(a: int, b: int)
    ensures
        crate::interpolate::lerp2(a, b, SCALE as int, 0) == a,
        crate::interpolate::lerp2(b, a, 0, SCALE as int) == a,
{
    assert(a * SCALE + b * 0 == SCALE as int * a) by (nonlinear_arith);
    assert(b * 0 + a * SCALE == SCALE as int * a) by (nonlinear_arith);
    vstd::arithmetic::div_mod::lemma_div_multiples_vanish(a, SCALE as int);
}

/// Where the bilinear pair and offset land when `u` is the exact center
/// coordinate of texel `x`: squarely on that texel, with no fractional
/// offset (or, on the last texel, the clamped pair with full offset).
proof fn lemma_bilinear_center_axis(u: int, dim: int, x: int)
    requires
        dim >= 2,
        0 <= x <= dim - 1,
        u * (dim - 1) == x * SCALE,
    ensures
        x <= dim - 2 ==> bilinear_lo(u, dim) == x && bilinear_frac(u, dim) == 0,
        x == dim - 1 ==> bilinear_lo(u, dim) == dim - 2 && bilinear_frac(u, dim) == SCALE,
{
    assert(x * SCALE == x * (SCALE as int) + 0) by (nonlinear_arith);
    lemma_fundamental_div_mod_converse(x * SCALE, SCALE as int, x, 0);
    assert((u * (dim - 1)) / (SCALE as int) == x);
    if x <= dim - 2 {
        assert(bilinear_frac(u, dim) == x * SCALE - x * SCALE);
    } else {
        assert(bilinear_lo(u, dim) == dim - 2);
        assert(bilinear_frac(u, dim) == (dim - 1) * SCALE - (dim - 2) * SCALE);
        assert((dim - 1) * SCALE - (dim - 2) * (SCALE as int) == SCALE) by (nonlinear_arith);
    }
}

/// Sampling with `Nearest` at the exact center coordinate of texel `x`
/// (that is, `u * (dim - 1) == x * SCALE`) picks exactly texel `x`.
pub proof fn lemma_nearest_at_center(u: int, dim: int, x: int)
    requires
        dim >= 1,
        0 <= x <= dim - 1,
        u * (dim - 1) == x * SCALE,
    ensures
        nearest_idx(u, dim) == x,
{
    assert(x * SCALE + HALF_SCALE == x * (SCALE as int) + HALF_SCALE) by (nonlinear_arith);
    lemma_fundamental_div_mod_converse(
        x * SCALE + HALF_SCALE,
        SCALE as int,
        x,
        HALF_SCALE as int,
    );
}

/// Sampling with `Bilinear` at the exact texel-center uv of texel `(x, y)`
/// returns that texel's stored value exactly: the three blends degenerate
/// to full-weight picks, so the neighbors contribute nothing.
pub proof fn lemma_bilinear_at_center(t: Texture<Color>, u: int, v: int, x: int, y: int)
    requires
        t.wf(),
        t.width >= 2,
        t.height >= 2,
        0 <= x <= t.width - 1,
        0 <= y <= t.height - 1,
        u * (t.width - 1) == x * SCALE,
        v * (t.height - 1) == y * SCALE,
    ensures
        t.spec_bilinear(u, v) == t.spec_texel(x, y),
{
    lemma_bilinear_center_axis(u, t.width as int, x);
    lemma_bilinear_center_axis(v, t.height as int, y);
    let x_0 = bilinear_lo(u, t.width as int);
    let y_0 = bilinear_lo(v, t.height as int);
    if x <= t.width - 2 {
        lemma_lerp2_color_first(t.spec_texel(x_0, y_0), t.spec_texel(x_0 + 1, y_0));
        lemma_lerp2_color_first(t.spec_texel(x_0, y_0 + 1), t.spec_texel(x_0 + 1, y_0 + 1));
        if y <= t.height - 2 {
            lemma_lerp2_color_first(t.spec_texel(x, y), t.spec_texel(x, y + 1));
        } else {
            lemma_lerp2_color_second(t.spec_texel(x, y - 1), t.spec_texel(x, y));
        }
    } else {
        lemma_lerp2_color_second(t.spec_texel(x_0, y_0), t.spec_texel(x_0 + 1, y_0));
        lemma_lerp2_color_second(t.spec_texel(x_0, y_0 + 1), t.spec_texel(x_0 + 1, y_0 + 1));
        if y <= t.height - 2 {
            lemma_lerp2_color_first(t.spec_texel(x, y), t.spec_texel(x, y + 1));
        } else {
            lemma_lerp2_color_second(t.spec_texel(x, y - 1), t.spec_texel(x, y));
        }
    }
}

/// The nearest texel of an in-range coordinate is in bounds.
proof fn lemma_nearest_in_bounds(u: int, dim: int)
    requires
        0 <= u <= SCALE,
        dim >= 1,
    ensures
        0 <= nearest_idx(u, dim) <= dim - 1,
{
    assert(0 <= u * (dim - 1) <= SCALE as int * (dim - 1)) by (nonlinear_arith)
        requires
            0 <= u <= SCALE,
            dim >= 1;
    lemma_div_pos_is_pos(u * (dim - 1) + HALF_SCALE, SCALE as int);
    lemma_div_is_ordered(
        u * (dim - 1) + HALF_SCALE,
        SCALE as int * (dim - 1) + HALF_SCALE,
        SCALE as int,
    );
    lemma_fundamental_div_mod_converse(
        SCALE as int * (dim - 1) + HALF_SCALE,
        SCALE as int,
        dim - 1,
        HALF_SCALE as int,
    );
}

/// The bilinear texel pair of an in-range coordinate is in bounds, and the
/// fractional offset is a valid blend weight.
proof fn lemma_bilinear_in_bounds(u: int, dim: int)
    requires
        0 <= u <= SCALE,
        dim >= 2,
    ensures
        0 <= bilinear_lo(u, dim) <= dim - 2,
        0 <= bilinear_frac(u, dim) <= SCALE,
{
    let s = SCALE as int;
    let f = (u * (dim - 1)) / s;
    assert(0 <= u * (dim - 1) <= s * (dim - 1)) by (nonlinear_arith)
        requires
            0 <= u <= s,
            s == SCALE,
            dim >= 2;
    lemma_div_pos_is_pos(u * (dim - 1), s);
    vstd::arithmetic::div_mod::lemma_fundamental_div_mod(u * (dim - 1), s);
    vstd::arithmetic::div_mod::lemma_mod_bound(u * (dim - 1), s);
    if f <= dim - 2 {
        // The frac is the division remainder, in [0, SCALE).
        assert(bilinear_frac(u, dim) == u * (dim - 1) - f * s);
        assert(u * (dim - 1) - f * s == u * (dim - 1) % s) by (nonlinear_arith)
            requires
                s == SCALE,
                u * (dim - 1) == s * f + u * (dim - 1) % s;
    } else {
        // Only u == SCALE pushes the floor to dim - 1; the clamped low
        // texel then carries a full-weight offset.
        lemma_div_is_ordered(u * (dim - 1), s * (dim - 1), s);
        vstd::arithmetic::div_mod::lemma_div_multiples_vanish(dim - 1, s);
        assert(f == dim - 1);
        assert(u * (dim - 1) >= (dim - 1) * s) by (nonlinear_arith)
            requires
                s == SCALE,
                u * (dim - 1) == s * f + u * (dim - 1) % s,
                u * (dim - 1) % s >= 0,
                f == dim - 1;
        assert(u * (dim - 1) <= (dim - 1) * s) by (nonlinear_arith)
            requires
                s == SCALE,
                0 <= u <= s,
                dim >= 2;
        assert(bilinear_frac(u, dim) == (dim - 1) * s - (dim - 2) * s);
        assert((dim - 1) * s - (dim - 2) * s == s) by (nonlinear_arith)
            requires
                s == SCALE;
    }
}

} // verus!
