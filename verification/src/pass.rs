//! The render pass: a frame texture and a depth texture owned together with
//! the viewport they raster into, and the drawing operations over them.

use crate::basetype::{Bbox2, Bbox3, Viewport};
use crate::color::Color;
use crate::fixed::{div_floor, div_floor_i128, COORD_LIMIT, SCALE};
use crate::interpolate::{lerp3_exec, Interpolate};
use crate::line::{clip_line, travel_line_bresenham};
use crate::pipeline::{depth_pass, signed_area_2, spec_depth_pass, Pipeline};
use crate::shader::{FsPayload, ShaderProgram};
use crate::texture::Texture;
use crate::interpolate::BaryCoord;
use crate::triangle::{
    pixel_inside, pixel_weights, scan_hi_x, scan_hi_y, scan_lo_x, scan_lo_y,
    travel_triangle_barycentric,
};
use crate::vector::{Vec2, Vec3, Vec4};
use vstd::math::{max, min};
use vstd::prelude::*;

verus! {

/// The quotient of a perspective divide along one axis.
pub open spec fn spec_pdiv(a: int, w: int) -> int {
    a * SCALE / w
}

/// Whether the perspective quotient stays within the fixed-point coordinate
/// range the rasterizer accepts.
pub open spec fn pdiv_in_range(a: int, w: int) -> bool {
    -COORD_LIMIT <= spec_pdiv(a, w) <= COORD_LIMIT
}

/// Maps a homogeneous position into normalized space by dividing x, y and z
/// by w.  Rejects positions on or behind the camera plane (`w <= 0`) and
/// positions whose quotients leave the fixed-point coordinate range: the
/// caller skips the triangle, as the original position was far outside any
/// drawable region.
fn perspective_divide(p: &Vec4) -> (r: Option<Vec4>)
    ensures
        r is Some <==> p.w > 0 && pdiv_in_range(p.x as int, p.w as int) && pdiv_in_range(
            p.y as int,
            p.w as int,
        ) && pdiv_in_range(p.z as int, p.w as int),
        r matches Some(q) ==> q.x == spec_pdiv(p.x as int, p.w as int) && q.y == spec_pdiv(
            p.y as int,
            p.w as int,
        ) && q.z == spec_pdiv(p.z as int, p.w as int) && q.w == SCALE,
{
    if p.w <= 0 {
        return None;
    }
    proof {
        lemma_scale_product_bound(p.x as int);
        lemma_scale_product_bound(p.y as int);
        lemma_scale_product_bound(p.z as int);
    }
    let qx = div_floor_i128(p.x as i128 * SCALE as i128, p.w as i128);
    let qy = div_floor_i128(p.y as i128 * SCALE as i128, p.w as i128);
    let qz = div_floor_i128(p.z as i128 * SCALE as i128, p.w as i128);
    if qx < -COORD_LIMIT as i128 || qx > COORD_LIMIT as i128 || qy < -COORD_LIMIT as i128 || qy
        > COORD_LIMIT as i128 || qz < -COORD_LIMIT as i128 || qz > COORD_LIMIT as i128 {
        return None;
    }
    Some(Vec4 { x: qx as i64, y: qy as i64, z: qz as i64, w: SCALE })
}

/// The product of any coordinate and `SCALE` stays far within the `i128`
/// range.
proof fn lemma_scale_product_bound(a: int) by (nonlinear_arith)
    requires
        i64::MIN <= a <= i64::MAX,
    ensures
        -0x8000_0000_0000_0000_0000_0000 <= a * SCALE <= 0x8000_0000_0000_0000_0000_0000,
{
}

/// Whether the bounding box of the three normalized positions misses the
/// canonical clip cube entirely (a cheap reject before per-pixel work).
pub open spec fn spec_outside_clipspace(p_0: Vec4, p_1: Vec4, p_2: Vec4) -> bool {
    max(p_0.x as int, max(p_1.x as int, p_2.x as int)) < -SCALE || min(
        p_0.x as int,
        min(p_1.x as int, p_2.x as int),
    ) > SCALE || max(p_0.y as int, max(p_1.y as int, p_2.y as int)) < -SCALE || min(
        p_0.y as int,
        min(p_1.y as int, p_2.y as int),
    ) > SCALE || max(p_0.z as int, max(p_1.z as int, p_2.z as int)) < -SCALE || min(
        p_0.z as int,
        min(p_1.z as int, p_2.z as int),
    ) > SCALE
}

fn is_triangle_outside_clipspace(p_0: &Vec4, p_1: &Vec4, p_2: &Vec4) -> (r: bool)
    ensures
        r == spec_outside_clipspace(*p_0, *p_1, *p_2),
{
    let mut pts: Vec<Vec3> = Vec::new();
    pts.push(Vec3 { x: p_0.x, y: p_0.y, z: p_0.z });
    pts.push(Vec3 { x: p_1.x, y: p_1.y, z: p_1.z });
    pts.push(Vec3 { x: p_2.x, y: p_2.y, z: p_2.z });
    let bb = Bbox3::from_points(&pts);
    proof {
        assert(bb.spec_contains(pts[0].x as int, pts[0].y as int, pts[0].z as int));
        assert(bb.spec_contains(pts[1].x as int, pts[1].y as int, pts[1].z as int));
        assert(bb.spec_contains(pts[2].x as int, pts[2].y as int, pts[2].z as int));
    }
    let clipspace = Bbox3 { l: -SCALE, r: SCALE, b: -SCALE, t: SCALE, n: -SCALE, f: SCALE };
    bb.intersect(&clipspace).is_none()
}

/// Maps a normalized position into viewport pixel coordinates:
/// `x` in `[-1, 1]` lands in `[0, width]` (similarly for `y`); `z` and `w`
/// pass through unchanged.  The viewport offset shifts the result.
pub open spec fn spec_to_viewport(v: int, extent: int, offset: int) -> int {
    (v + SCALE) * extent / 2 + offset * SCALE
}

fn clipspace_to_viewport(p: &Vec4, viewport: &Viewport) -> (r: Vec4)
    requires
        viewport.valid(),
        -COORD_LIMIT <= p.x <= COORD_LIMIT,
        -COORD_LIMIT <= p.y <= COORD_LIMIT,
    ensures
        r.x == spec_to_viewport(p.x as int, viewport.width as int, viewport.offset_x as int),
        r.y == spec_to_viewport(p.y as int, viewport.height as int, viewport.offset_y as int),
        r.z == p.z,
        r.w == p.w,
{
    proof {
        lemma_viewport_product_bound(p.x as int, viewport.width as int);
        lemma_viewport_product_bound(p.y as int, viewport.height as int);
    }
    let x = div_floor((p.x + SCALE) * viewport.width as i64, 2) + viewport.offset_x as i64
        * SCALE;
    let y = div_floor((p.y + SCALE) * viewport.height as i64, 2) + viewport.offset_y as i64
        * SCALE;
    Vec4 { x, y, z: p.z, w: p.w }
}

/// The viewport-mapping product of an in-range coordinate and a bounded
/// extent stays far within the `i64` range.
proof fn lemma_viewport_product_bound(v: int, extent: int) by (nonlinear_arith)
    requires
        -COORD_LIMIT <= v <= COORD_LIMIT,
        0 <= extent <= 1024,
    ensures
        -0x2000_0000_0000 <= (v + SCALE) * extent <= 0x2000_0000_0000,
{
}

/// Whether a fragment position is drawable: its pixel inside the viewport
/// and its depth within the canonical range.
pub open spec fn spec_inside_viewport(x: int, y: int, z: int, viewport: Viewport) -> bool {
    viewport.covers(x, y) && -SCALE <= z < SCALE
}

fn is_position_inside_viewport(p: &Vec2, z: i64, viewport: &Viewport) -> (r: bool)
    ensures
        r == spec_inside_viewport(p.x as int, p.y as int, z as int, *viewport),
{
    p.x >= viewport.offset_x as i64 && p.x < viewport.offset_x as i64 + viewport.width as i64
        && p.y >= viewport.offset_y as i64 && p.y < viewport.offset_y as i64
        + viewport.height as i64 && z >= -SCALE && z < SCALE
}

/// A valid viewport's pixel count fits comfortably in a `usize`.
proof fn lemma_viewport_area_bound(width: int, height: int) by (nonlinear_arith)
    requires
        0 <= width <= 1024,
        0 <= height <= 1024,
    ensures
        0 <= width * height <= 0x100000,
{
}

/// The 2D projection of a homogeneous position, at the specification
/// level.
pub open spec fn spec_xy(p: Vec4) -> Vec2 {
    Vec2 { x: p.x, y: p.y }
}

/// The interpolated depth a fragment with blend weights `w` carries.
pub open spec fn spec_fragment_z(p_0: Vec4, p_1: Vec4, p_2: Vec4, w: BaryCoord) -> int {
    crate::interpolate::lerp3(
        p_0.z as int,
        p_1.z as int,
        p_2.z as int,
        w.w_0 as int,
        w.w_1 as int,
        w.w_2 as int,
    )
}

/// What the payload of the fragment at pixel `(x, y)` holds, apart from the
/// interpolated varying: the pixel-center position with the blended depth,
/// and the pixel's barycentric coordinate.
pub open spec fn spec_payload_at<V>(
    p_0: Vec4,
    p_1: Vec4,
    p_2: Vec4,
    viewport: Viewport,
    payload: FsPayload<V>,
    x: int,
    y: int,
) -> bool {
    let w = pixel_weights(spec_xy(p_0), spec_xy(p_1), spec_xy(p_2), x, y);
    &&& payload.position.x == x * SCALE
    &&& payload.position.y == y * SCALE
    &&& payload.position.z == spec_fragment_z(p_0, p_1, p_2, w)
    &&& payload.position.w == SCALE
    &&& payload.bary_coord == w
    &&& pixel_inside(spec_xy(p_0), spec_xy(p_1), spec_xy(p_2), x, y)
    &&& spec_inside_viewport(x, y, payload.position.z as int, viewport)
    &&& w.wf()
}

/// Rasterizes one viewport-space triangle into fragment-stage payloads:
/// exactly one per pixel of the viewport-clipped scan region whose center
/// lies inside the triangle and whose blended depth lies in the canonical
/// range, in row-major order.  Each payload carries the pixel-center
/// position with that depth, the pixel's barycentric coordinate, and the
/// varying blended with it (left open here: `V` is arbitrary user data).
#[verifier::loop_isolation(false)]
#[verifier::rlimit(60)]
fn collect_triangle<V: Interpolate>(
    p_0: &Vec4,
    varying_0: &V,
    p_1: &Vec4,
    varying_1: &V,
    p_2: &Vec4,
    varying_2: &V,
    viewport: &Viewport,
) -> (payloads: Vec<FsPayload<V>>)
    requires
        viewport.valid(),
        -COORD_LIMIT <= p_0.x <= COORD_LIMIT,
        -COORD_LIMIT <= p_0.y <= COORD_LIMIT,
        -COORD_LIMIT <= p_1.x <= COORD_LIMIT,
        -COORD_LIMIT <= p_1.y <= COORD_LIMIT,
        -COORD_LIMIT <= p_2.x <= COORD_LIMIT,
        -COORD_LIMIT <= p_2.y <= COORD_LIMIT,
    ensures
        forall|j: int|
            0 <= j < payloads.len() ==> {
                let p = (#[trigger] payloads[j]).position;
                &&& p.x % SCALE == 0
                &&& p.y % SCALE == 0
                &&& spec_payload_at(
                    *p_0,
                    *p_1,
                    *p_2,
                    *viewport,
                    payloads[j],
                    p.x as int / (SCALE as int),
                    p.y as int / (SCALE as int),
                )
            },
        forall|x: int, y: int|
            {
                let vb = Bbox2::spec_viewport_box(*viewport);
                let w = pixel_weights(spec_xy(*p_0), spec_xy(*p_1), spec_xy(*p_2), x, y);
                scan_lo_x(spec_xy(*p_0), spec_xy(*p_1), spec_xy(*p_2), vb) <= x <= scan_hi_x(
                    spec_xy(*p_0),
                    spec_xy(*p_1),
                    spec_xy(*p_2),
                    vb,
                ) && scan_lo_y(spec_xy(*p_0), spec_xy(*p_1), spec_xy(*p_2), vb) <= y <= scan_hi_y(
                    spec_xy(*p_0),
                    spec_xy(*p_1),
                    spec_xy(*p_2),
                    vb,
                ) && #[trigger] pixel_inside(spec_xy(*p_0), spec_xy(*p_1), spec_xy(*p_2), x, y)
                    && spec_inside_viewport(x, y, spec_fragment_z(*p_0, *p_1, *p_2, w), *viewport)
            } ==> exists|j: int|
                0 <= j < payloads.len() && (#[trigger] payloads[j]).position.x == x * SCALE
                    && payloads[j].position.y == y * SCALE,
        forall|i: int, j: int|
            0 <= i < j < payloads.len() ==> (#[trigger] payloads[i]).position.x < (
            #[trigger] payloads[j]).position.x || (payloads[i].position.x
                == payloads[j].position.x && payloads[i].position.y < payloads[j].position.y),
{
    let vbox = Bbox2::from_viewport(viewport);
    let a_0 = p_0.xy();
    let a_1 = p_1.xy();
    let a_2 = p_2.xy();
    let frags = travel_triangle_barycentric(&a_0, &a_1, &a_2, &vbox);
    proof {
        crate::triangle::lemma_scan_in_pixel_range(a_0, a_1, a_2, vbox);
    }
    let mut payloads: Vec<FsPayload<V>> = Vec::new();
    let mut f: usize = 0;
    while f < frags.len()
        invariant
            f <= frags.len(),
            forall|j: int|
                0 <= j < payloads.len() ==> {
                    let p = (#[trigger] payloads[j]).position;
                    &&& p.x % SCALE == 0
                    &&& p.y % SCALE == 0
                    &&& spec_payload_at(
                        *p_0,
                        *p_1,
                        *p_2,
                        *viewport,
                        payloads[j],
                        p.x as int / (SCALE as int),
                        p.y as int / (SCALE as int),
                    )
                },
            forall|g: int|
                0 <= g < f && spec_inside_viewport(
                    (#[trigger] frags[g]).0.x as int,
                    frags[g].0.y as int,
                    spec_fragment_z(*p_0, *p_1, *p_2, frags[g].1),
                    *viewport,
                ) ==> exists|j: int|
                    0 <= j < payloads.len() && (#[trigger] payloads[j]).position.x == frags[g].0.x
                        * SCALE && payloads[j].position.y == frags[g].0.y * SCALE,
            forall|i: int, j: int|
                0 <= i < j < payloads.len() ==> (#[trigger] payloads[i]).position.x < (
                #[trigger] payloads[j]).position.x || (payloads[i].position.x
                    == payloads[j].position.x && payloads[i].position.y < payloads[j].position.y),
            payloads.len() > 0 ==> exists|g: int|
                0 <= g < f && (#[trigger] frags[g]).0.x * SCALE == payloads[payloads.len()
                    - 1].position.x && frags[g].0.y * SCALE == payloads[payloads.len()
                    - 1].position.y,
        decreases frags.len() - f,
    {
        let (px, w) = frags[f];
        let z = lerp3_exec(p_0.z, p_1.z, p_2.z, &w);
        if is_position_inside_viewport(&px, z, viewport) {
            let varying = V::barycentric_interpolate(varying_0, varying_1, varying_2, &w);
            let ghost payloads_old = payloads@;
            payloads.push(
                FsPayload {
                    position: Vec4 { x: px.x * SCALE, y: px.y * SCALE, z, w: SCALE },
                    varying,
                    bary_coord: w,
                },
            );
            proof {
                assert(forall|j: int|
                    0 <= j < payloads_old.len() ==> payloads@[j] == payloads_old[j]);
                assert(payloads@[payloads@.len() - 1].position.x == px.x * SCALE);
            }
        }
        f = f + 1;
    }
    payloads
}

/// Whether the walked pixel list `ps` writes the frame texel `(ix, iy)`
/// (in storage coordinates): some covered pixel of `ps` maps to it through
/// the offset shift and the vertical flip.
pub open spec fn line_hits_texel(viewport: Viewport, ps: Seq<Vec2>, ix: int, iy: int) -> bool {
    exists|j: int|
        0 <= j < ps.len() && viewport.covers((#[trigger] ps[j]).x as int, ps[j].y as int)
            && ps[j].x - viewport.offset_x == ix && viewport.height - 1 - (ps[j].y
            - viewport.offset_y) == iy
}

pub struct RenderPass {
    pub viewport: Viewport,
    pub frame_texture: Texture<Color>,
    pub depth_texture: Texture<Option<i64>>,
}

impl RenderPass {
    /// Both buffers match the viewport, and every stored color is a valid
    /// clamped color.
    pub open spec fn wf(self) -> bool {
        &&& self.viewport.valid()
        &&& self.frame_texture.wf()
        &&& self.frame_texture.width == self.viewport.width
        &&& self.frame_texture.height == self.viewport.height
        &&& self.frame_texture.all_texels_wf()
        &&& self.depth_texture.wf()
        &&& self.depth_texture.width == self.viewport.width
        &&& self.depth_texture.height == self.viewport.height
    }

    /// A fresh pass over a viewport: a black frame and an empty depth
    /// buffer.
    pub fn new(viewport: Viewport) -> (pass: RenderPass)
        requires
            viewport.valid(),
        ensures
            pass.wf(),
            pass.viewport == viewport,
            forall|x: int, y: int|
                0 <= x < viewport.width && 0 <= y < viewport.height
                    ==> pass.frame_texture.spec_texel(x, y) == Color::spec_black(),
            forall|x: int, y: int|
                0 <= x < viewport.width && 0 <= y < viewport.height
                    ==> pass.depth_texture.spec_texel(x, y) == Option::<i64>::None,
    {
        proof {
            lemma_viewport_area_bound(viewport.width as int, viewport.height as int);
        }
        RenderPass {
            viewport,
            frame_texture: Texture::new(viewport.width, viewport.height, Color::black()),
            depth_texture: Texture::new(viewport.width, viewport.height, Option::None),
        }
    }

    /// Resets the frame to the white background and forgets every depth
    /// entry, ready for the next frame.
    pub fn clear(&mut self)
        requires
            old(self).wf(),
        ensures
            final(self).wf(),
            final(self).viewport == old(self).viewport,
            forall|x: int, y: int|
                0 <= x < old(self).viewport.width && 0 <= y < old(self).viewport.height ==> final(self).frame_texture.spec_texel(x, y) == Color::spec_white(),
            forall|x: int, y: int|
                0 <= x < old(self).viewport.width && 0 <= y < old(self).viewport.height ==> final(self).depth_texture.spec_texel(x, y) == Option::<i64>::None,
    {
        self.frame_texture.fill(Color::white());
        self.depth_texture.fill(Option::None);
    }

    /// Writes one pixel of the frame, given in viewport coordinates: the
    /// vertical axis is flipped into storage order, and writes outside the
    /// viewport are silently dropped.
    pub fn draw_pixel(&mut self, p: &Vec2, color: &Color)
        requires
            old(self).wf(),
            color.wf(),
        ensures
            final(self).wf(),
            final(self).viewport == old(self).viewport,
            final(self).depth_texture == old(self).depth_texture,
            !old(self).viewport.covers(p.x as int, p.y as int) ==> final(self).frame_texture
                == old(self).frame_texture,
            old(self).viewport.covers(p.x as int, p.y as int) ==> {
                let tx = p.x - old(self).viewport.offset_x;
                let ty = old(self).viewport.height - 1 - (p.y - old(self).viewport.offset_y);
                &&& final(self).frame_texture.spec_texel(tx, ty) == *color
                &&& forall|ix: int, iy: int|
                    0 <= ix < old(self).viewport.width && 0 <= iy < old(self).viewport.height && !(
                    ix == tx && iy == ty) ==> final(self).frame_texture.spec_texel(ix, iy) == old(
                        self,
                    ).frame_texture.spec_texel(ix, iy)
            },
    {
        let offset_x = self.viewport.offset_x as i64;
        let offset_y = self.viewport.offset_y as i64;
        let width = self.viewport.width as i64;
        let height = self.viewport.height as i64;
        let x = p.x;
        let y = p.y;

        if x < offset_x || x >= offset_x + width || y < offset_y || y >= offset_y + height {
            return;
        }
        let tx = x - offset_x;
        // Flip the y coordinate: row 0 of the storage is the top.
        let ty = height - 1 - (y - offset_y);
        self.frame_texture.set_texel(&Vec2 { x: tx, y: ty }, *color);
        proof {
            let idx = crate::texture::texel_index(
                old(self).frame_texture.width as int,
                tx as int,
                ty as int,
            );
            crate::texture::lemma_texel_index_bound(
                old(self).frame_texture.width as int,
                old(self).frame_texture.height as int,
                tx as int,
                ty as int,
            );
            assert(self.frame_texture.data@ == old(self).frame_texture.data@.update(
                idx,
                *color,
            ));
            assert forall|j: int| 0 <= j < self.frame_texture.data.len() implies (
            #[trigger] self.frame_texture.data[j]).wf() by {
                assert(old(self).frame_texture.data[j].wf());
                if j == idx {
                    assert(self.frame_texture.data[j] == *color);
                } else {
                    assert(self.frame_texture.data[j] == old(self).frame_texture.data@[j]);
                }
            }
        }
    }

    /// Draws a straight line segment, clipped to the viewport, in a flat
    /// color — bypassing shaders and depth testing entirely.  The segment
    /// is clipped exactly as [`crate::line::spec_clip`] says; if nothing
    /// remains, the frame is untouched, and otherwise the clipped pair is
    /// walked by Bresenham and exactly the covered texels take the color —
    /// every other texel, and the depth buffer, keep their values.
    pub fn draw_line(&mut self, p_0: &Vec2, p_1: &Vec2, color: &Color)
        requires
            old(self).wf(),
            color.wf(),
            p_0.in_range(),
            p_1.in_range(),
        ensures
            final(self).wf(),
            final(self).viewport == old(self).viewport,
            final(self).depth_texture == old(self).depth_texture,
            forall|ix: int, iy: int|
                0 <= ix < old(self).viewport.width && 0 <= iy < old(self).viewport.height ==> {
                    ||| final(self).frame_texture.spec_texel(ix, iy) == old(
                        self,
                    ).frame_texture.spec_texel(ix, iy)
                    ||| final(self).frame_texture.spec_texel(ix, iy) == *color
                },
            crate::line::spec_clip(*p_0, *p_1, Bbox2::spec_viewport_box(old(self).viewport))
                is None ==> final(self).frame_texture == old(self).frame_texture,
            crate::line::spec_clip(
                *p_0,
                *p_1,
                Bbox2::spec_viewport_box(old(self).viewport),
            ) matches Some(qs) ==> exists|ps: Seq<Vec2>|
                {
                    &&& #[trigger] crate::line::bresenham_pixels(qs.0, qs.1, ps)
                    &&& forall|ix: int, iy: int|
                        0 <= ix < old(self).viewport.width && 0 <= iy < old(
                            self,
                        ).viewport.height ==> (if line_hits_texel(old(self).viewport, ps, ix, iy) {
                            final(self).frame_texture.spec_texel(ix, iy) == *color
                        } else {
                            final(self).frame_texture.spec_texel(ix, iy) == old(
                                self,
                            ).frame_texture.spec_texel(ix, iy)
                        })
                },
            ({
                let vb = Bbox2::spec_viewport_box(old(self).viewport);
                let px = crate::line::pixel_of(p_0.x as int);
                let py = crate::line::pixel_of(p_0.y as int);
                vb.spec_contains(p_0.x as int, p_0.y as int) && vb.spec_contains(
                    p_1.x as int,
                    p_1.y as int,
                ) && old(self).viewport.covers(px, py) ==> final(self).frame_texture.spec_texel(
                    px - old(self).viewport.offset_x,
                    old(self).viewport.height - 1 - (py - old(self).viewport.offset_y),
                ) == *color
            }),
            ({
                let vb = Bbox2::spec_viewport_box(old(self).viewport);
                let px = crate::line::pixel_of(p_1.x as int);
                let py = crate::line::pixel_of(p_1.y as int);
                vb.spec_contains(p_0.x as int, p_0.y as int) && vb.spec_contains(
                    p_1.x as int,
                    p_1.y as int,
                ) && old(self).viewport.covers(px, py) ==> final(self).frame_texture.spec_texel(
                    px - old(self).viewport.offset_x,
                    old(self).viewport.height - 1 - (py - old(self).viewport.offset_y),
                ) == *color
            }),
    {
        let bbox = Bbox2::from_viewport(&self.viewport);
        let clip_result = clip_line(p_0, p_1, &bbox);
        if clip_result.is_none() {
            return;
        }
        let (q_0, q_1) = clip_result.unwrap();
        let pixels = travel_line_bresenham(&q_0, &q_1);
        let mut i: usize = 0;
        while i < pixels.len()
            invariant
                i <= pixels.len(),
                self.wf(),
                self.viewport == old(self).viewport,
                self.depth_texture == old(self).depth_texture,
                color.wf(),
                forall|ix: int, iy: int|
                    0 <= ix < old(self).viewport.width && 0 <= iy < old(self).viewport.height
                        ==> {
                        ||| self.frame_texture.spec_texel(ix, iy) == old(
                            self,
                        ).frame_texture.spec_texel(ix, iy)
                        ||| self.frame_texture.spec_texel(ix, iy) == *color
                    },
                forall|j: int|
                    0 <= j < i && old(self).viewport.covers(
                        (#[trigger] pixels[j]).x as int,
                        pixels[j].y as int,
                    ) ==> self.frame_texture.spec_texel(
                        pixels[j].x - old(self).viewport.offset_x,
                        old(self).viewport.height - 1 - (pixels[j].y
                            - old(self).viewport.offset_y),
                    ) == *color,
                forall|ix: int, iy: int|
                    0 <= ix < old(self).viewport.width && 0 <= iy < old(self).viewport.height
                        && !line_hits_texel(old(self).viewport, pixels@.take(i as int), ix, iy)
                        ==> self.frame_texture.spec_texel(ix, iy) == old(
                        self,
                    ).frame_texture.spec_texel(ix, iy),
            decreases pixels.len() - i,
        {
            let px = pixels[i];
            self.draw_pixel(&px, color);
            i = i + 1;
            proof {
                let ii = i - 1;
                let vp = old(self).viewport;
                assert(pixels@.take(i as int) == pixels@.take(ii).push(pixels@[ii]));
                assert forall|ix: int, iy: int|
                    0 <= ix < vp.width && 0 <= iy < vp.height && !line_hits_texel(
                        vp,
                        pixels@.take(i as int),
                        ix,
                        iy,
                    ) implies self.frame_texture.spec_texel(ix, iy) == old(
                    self,
                ).frame_texture.spec_texel(ix, iy) by {
                    assert(!line_hits_texel(vp, pixels@.take(ii), ix, iy)) by {
                        if line_hits_texel(vp, pixels@.take(ii), ix, iy) {
                            let j = choose|j: int|
                                0 <= j < pixels@.take(ii).len() && vp.covers(
                                    (#[trigger] pixels@.take(ii)[j]).x as int,
                                    pixels@.take(ii)[j].y as int,
                                ) && pixels@.take(ii)[j].x - vp.offset_x == ix && vp.height - 1 - (
                                pixels@.take(ii)[j].y - vp.offset_y) == iy;
                            assert(pixels@.take(i as int)[j] == pixels@.take(ii)[j]);
                        }
                    }
                    if vp.covers(px.x as int, px.y as int) {
                        assert(pixels@.take(i as int)[ii] == px);
                        assert(!(px.x - vp.offset_x == ix && vp.height - 1 - (px.y - vp.offset_y)
                            == iy));
                    }
                }
            }
        }
        proof {
            let vp = old(self).viewport;
            assert(pixels@.take(pixels@.len() as int) == pixels@);
            assert forall|ix: int, iy: int|
                0 <= ix < vp.width && 0 <= iy < vp.height implies (if line_hits_texel(
                vp,
                pixels@,
                ix,
                iy,
            ) {
                self.frame_texture.spec_texel(ix, iy) == *color
            } else {
                self.frame_texture.spec_texel(ix, iy) == old(self).frame_texture.spec_texel(
                    ix,
                    iy,
                )
            }) by {
                if line_hits_texel(vp, pixels@, ix, iy) {
                    let j = choose|j: int|
                        0 <= j < pixels@.len() && vp.covers(
                            (#[trigger] pixels@[j]).x as int,
                            pixels@[j].y as int,
                        ) && pixels@[j].x - vp.offset_x == ix && vp.height - 1 - (pixels@[j].y
                            - vp.offset_y) == iy;
                    assert(self.frame_texture.spec_texel(ix, iy) == *color);
                }
            }
        }
    }

    /// One draw call: runs the vertex stage for every index, groups the
    /// outputs into consecutive triangles, rejects triangles behind the
    /// camera, outside the clip cube, beyond the fixed-point coordinate
    /// range, or culled by winding, rasterizes the rest, depth-tests each
    /// fragment (when depth writing is enabled), and shades and writes the
    /// surviving fragments.
    ///
    /// The shader program is arbitrary user code, so the contract promises
    /// what holds whatever it returns: the pass stays well-formed over the
    /// same viewport, and the depth buffer is untouched when depth writing
    /// is disabled.  A trailing group of fewer than three vertex outputs is
    /// ignored.
    #[verifier::loop_isolation(false)]
    #[verifier::rlimit(100)]
    pub fn draw<P: ShaderProgram>(&mut self, pipeline: &Pipeline<P>, vertex_count: usize)
        requires
            old(self).wf(),
            vertex_count + 2 <= usize::MAX,
        ensures
            final(self).wf(),
            final(self).viewport == old(self).viewport,
            !pipeline.depth_write_enable ==> final(self).depth_texture == old(self).depth_texture,
            pipeline.depth_write_enable ==> forall|x: int, y: int|
                0 <= x < old(self).viewport.width && 0 <= y < old(self).viewport.height ==> {
                    ||| final(self).depth_texture.spec_texel(x, y) == old(
                        self,
                    ).depth_texture.spec_texel(x, y)
                    ||| (final(self).depth_texture.spec_texel(x, y) matches Some(z) && -SCALE <= z
                        < SCALE && spec_depth_pass(
                        pipeline.depth_compare,
                        z as int,
                        old(self).depth_texture.spec_texel(x, y),
                    ))
                },
            vertex_count < 3 ==> *final(self) == *old(self),
    {
        let mut vs_outputs: Vec<crate::shader::VsOutput<P::Varying>> = Vec::new();
        let mut i: usize = 0;
        while i < vertex_count
            invariant
                vs_outputs.len() == i,
                i <= vertex_count,
            decreases vertex_count - i,
        {
            vs_outputs.push(pipeline.program.vertex_shader(i));
            i = i + 1;
        }
        let vbox = Bbox2::from_viewport(&self.viewport);
        let ghost vp = self.viewport;

        let mut t: usize = 0;
        while t + 2 < vertex_count
            invariant
                t <= vertex_count,
                vertex_count < 3 ==> *self == *old(self),
                self.wf(),
                self.viewport == vp,
                !pipeline.depth_write_enable ==> self.depth_texture == old(self).depth_texture,
                pipeline.depth_write_enable ==> forall|x: int, y: int|
                    0 <= x < old(self).viewport.width && 0 <= y < old(self).viewport.height
                        ==> {
                        ||| self.depth_texture.spec_texel(x, y) == old(
                            self,
                        ).depth_texture.spec_texel(x, y)
                        ||| (self.depth_texture.spec_texel(x, y) matches Some(z) && -SCALE <= z
                            < SCALE && spec_depth_pass(
                            pipeline.depth_compare,
                            z as int,
                            old(self).depth_texture.spec_texel(x, y),
                        ))
                    },
                vs_outputs.len() == vertex_count,
            decreases vertex_count - t,
        {
            let d_0 = perspective_divide(&vs_outputs[t].position);
            let d_1 = perspective_divide(&vs_outputs[t + 1].position);
            let d_2 = perspective_divide(&vs_outputs[t + 2].position);
            if d_0.is_some() && d_1.is_some() && d_2.is_some() {
                let q_0 = d_0.unwrap();
                let q_1 = d_1.unwrap();
                let q_2 = d_2.unwrap();
                if !is_triangle_outside_clipspace(&q_0, &q_1, &q_2) {
                    let m_0 = clipspace_to_viewport(&q_0, &self.viewport);
                    let m_1 = clipspace_to_viewport(&q_1, &self.viewport);
                    let m_2 = clipspace_to_viewport(&q_2, &self.viewport);
                    let a_0 = m_0.xy();
                    let a_1 = m_1.xy();
                    let a_2 = m_2.xy();
                    if a_0.x >= -COORD_LIMIT && a_0.x <= COORD_LIMIT && a_0.y >= -COORD_LIMIT
                        && a_0.y <= COORD_LIMIT && a_1.x >= -COORD_LIMIT && a_1.x <= COORD_LIMIT
                        && a_1.y >= -COORD_LIMIT && a_1.y <= COORD_LIMIT && a_2.x >= -COORD_LIMIT
                        && a_2.x <= COORD_LIMIT && a_2.y >= -COORD_LIMIT && a_2.y <= COORD_LIMIT {
                        let area_2 = signed_area_2(&a_0, &a_1, &a_2);
                        if !pipeline.cull_mode.culls(area_2) {
                            let mut fs_payloads = collect_triangle(
                                &m_0,
                                &vs_outputs[t].varying,
                                &m_1,
                                &vs_outputs[t + 1].varying,
                                &m_2,
                                &vs_outputs[t + 2].varying,
                                &self.viewport,
                            );
                            while fs_payloads.len() > 0
                                invariant
                                    self.wf(),
                                    self.viewport == vp,
                                    !pipeline.depth_write_enable ==> self.depth_texture == old(
                                        self,
                                    ).depth_texture,
                                    pipeline.depth_write_enable ==> forall|x: int, y: int|
                                        0 <= x < old(self).viewport.width && 0 <= y < old(
                                            self,
                                        ).viewport.height ==> {
                                            ||| self.depth_texture.spec_texel(x, y) == old(
                                                self,
                                            ).depth_texture.spec_texel(x, y)
                                            ||| (self.depth_texture.spec_texel(x, y) matches Some(
                                                z,
                                            ) && -SCALE <= z < SCALE && spec_depth_pass(
                                                pipeline.depth_compare,
                                                z as int,
                                                old(self).depth_texture.spec_texel(x, y),
                                            ))
                                        },
                                    forall|j: int|
                                        0 <= j < fs_payloads.len() ==> {
                                            let p = (#[trigger] fs_payloads[j]).position;
                                            &&& p.x % SCALE == 0
                                            &&& p.y % SCALE == 0
                                            &&& spec_inside_viewport(
                                                p.x as int / (SCALE as int),
                                                p.y as int / (SCALE as int),
                                                p.z as int,
                                                vp,
                                            )
                                            &&& p.w == SCALE
                                        },
                                decreases fs_payloads.len(),
                            {
                                let payload = fs_payloads.pop().unwrap();
                                let position = payload.position;
                                let px = Vec2 {
                                    x: div_floor(position.x, SCALE),
                                    y: div_floor(position.y, SCALE),
                                };
                                let z = position.z;
                                let dx = px.x - self.viewport.offset_x as i64;
                                let dy = px.y - self.viewport.offset_y as i64;
                                let depth_ok = if pipeline.depth_write_enable {
                                    let prev = self.depth_texture.get_texel(
                                        &Vec2 { x: dx, y: dy },
                                    );
                                    let ok = depth_pass(pipeline.depth_compare, z, prev);
                                    if ok {
                                        self.depth_texture.set_texel(
                                            &Vec2 { x: dx, y: dy },
                                            Option::Some(z),
                                        );
                                        proof {
                                            crate::pipeline::lemma_depth_pass_chain(
                                                pipeline.depth_compare,
                                                z,
                                                prev,
                                                old(self).depth_texture.spec_texel(
                                                    dx as int,
                                                    dy as int,
                                                ),
                                            );
                                        }
                                    }
                                    ok
                                } else {
                                    true
                                };
                                if depth_ok {
                                    let c = pipeline.program.fragment_shader(payload);
                                    let c = Color::new(c.r, c.g, c.b, c.a);
                                    self.draw_pixel(&px, &c);
                                }
                            }
                        }
                    }
                }
            }
            t = t + 3;
        }
    }
}

} // verus!
