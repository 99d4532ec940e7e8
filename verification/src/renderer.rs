//! A minimal rasterizer over a flat RGBA byte frame buffer (4 bytes per
//! pixel, row 0 at the top), for wireframe and debug drawing without the
//! shader/depth pipeline.

use crate::basetype::{Bbox2, Viewport};
use crate::pass::line_hits_texel;
use crate::color::{channel_to_byte, unit_to_byte, Color};
use crate::line::{clip_line, travel_line_bresenham};
use crate::texture::{lemma_texel_index_bound, texel_index};
use crate::vector::Vec2;
use vstd::prelude::*;

verus! {

pub struct Raster {
    pub viewport: Viewport,
    pub frame_buffer: Vec<u8>,
}

impl Raster {
    /// The byte buffer holds four bytes for each viewport pixel.
    pub open spec fn wf(self) -> bool {
        self.viewport.valid() && self.frame_buffer.len() == 4 * (self.viewport.width
            * self.viewport.height)
    }

    /// A fresh raster over a viewport, zero-filled (transparent black).
    pub fn new(viewport: Viewport) -> (r: Raster)
        requires
            viewport.valid(),
        ensures
            r.wf(),
            r.viewport == viewport,
            forall|i: int| 0 <= i < r.frame_buffer.len() ==> r.frame_buffer[i] == 0,
    {
        proof {
            assert(0 <= viewport.width as int * viewport.height <= 0x100000) by (nonlinear_arith)
                requires
                    0 <= viewport.width <= 1024,
                    0 <= viewport.height <= 1024;
        }
        let pixel_count: usize = (viewport.width as usize) * (viewport.height as usize);
        let total: usize = 4 * pixel_count;
        let mut frame_buffer: Vec<u8> = Vec::new();
        let mut i: usize = 0;
        while i < total
            invariant
                frame_buffer.len() == i,
                i <= total,
                forall|j: int| 0 <= j < i ==> frame_buffer[j] == 0,
            decreases total - i,
        {
            frame_buffer.push(0);
            i = i + 1;
        }
        Raster { viewport, frame_buffer }
    }

    /// Zeroes the whole frame buffer.
    pub fn clear(&mut self)
        requires
            old(self).wf(),
        ensures
            final(self).wf(),
            final(self).viewport == old(self).viewport,
            forall|i: int|
                0 <= i < final(self).frame_buffer.len() ==> final(self).frame_buffer[i] == 0,
    {
        let total: usize = self.frame_buffer.len();
        let mut i: usize = 0;
        while i < total
            invariant
                self.viewport == old(self).viewport,
                self.frame_buffer.len() == total,
                total == old(self).frame_buffer.len(),
                i <= total,
                forall|j: int| 0 <= j < i ==> self.frame_buffer[j] == 0,
            decreases total - i,
        {
            self.frame_buffer.set(i, 0);
            i = i + 1;
        }
    }

    /// Writes one pixel, given in viewport coordinates: the vertical axis
    /// is flipped into storage order, the color's channels are rounded to
    /// the nearest bytes (see [`crate::color::unit_to_byte`]), and writes
    /// outside the viewport are silently dropped.
    pub fn draw_pixel(&mut self, p: &Vec2, color: &Color)
        requires
            old(self).wf(),
            color.wf(),
        ensures
            final(self).wf(),
            final(self).viewport == old(self).viewport,
            !old(self).viewport.covers(p.x as int, p.y as int) ==> final(self).frame_buffer
                == old(self).frame_buffer,
            old(self).viewport.covers(p.x as int, p.y as int) ==> {
                let tx = p.x - old(self).viewport.offset_x;
                let ty = old(self).viewport.height - 1 - (p.y - old(self).viewport.offset_y);
                let base = 4 * texel_index(old(self).viewport.width as int, tx, ty);
                &&& final(self).frame_buffer[base] == unit_to_byte(color.r as int)
                &&& final(self).frame_buffer[base + 1] == unit_to_byte(color.g as int)
                &&& final(self).frame_buffer[base + 2] == unit_to_byte(color.b as int)
                &&& final(self).frame_buffer[base + 3] == unit_to_byte(color.a as int)
                &&& forall|i: int|
                    0 <= i < old(self).frame_buffer.len() && !(base <= i < base + 4) ==> final(self).frame_buffer[i] == old(self).frame_buffer[i]
            },
    {
        let offset_x = self.viewport.offset_x as i64;
        let offset_y = self.viewport.offset_y as i64;
        let width = self.viewport.width as i64;
        let height = self.viewport.height as i64;
        let x = p.x;
        let y = p.y;

        if x < offset_x || x >= offset_x + width || y < offset_y || y >= offset_y + height {
            return;
        }
        let tx = x - offset_x;
        // Flip the y coordinate: row 0 of the storage is the top.
        let ty = height - 1 - (y - offset_y);
        proof {
            lemma_texel_index_bound(width as int, height as int, tx as int, ty as int);
            assert(4 * texel_index(width as int, tx as int, ty as int) + 4 <= 4 * (width as int
                * height)) by (nonlinear_arith)
                requires
                    texel_index(width as int, tx as int, ty as int) < width as int * height,
                    0 <= texel_index(width as int, tx as int, ty as int);
        }
        let base: usize = 4 * ((tx as usize) + (ty as usize) * (width as usize));
        self.frame_buffer.set(base, channel_to_byte(color.r));
        self.frame_buffer.set(base + 1, channel_to_byte(color.g));
        self.frame_buffer.set(base + 2, channel_to_byte(color.b));
        self.frame_buffer.set(base + 3, channel_to_byte(color.a));
    }

    /// Draws a straight line segment, clipped to the viewport, in a flat
    /// color.  The segment is clipped exactly as
    /// [`crate::line::spec_clip`] says; if nothing remains, the buffer is
    /// untouched, and otherwise the clipped pair is walked by Bresenham
    /// and exactly the covered pixels take the color's channel bytes —
    /// every other byte keeps its value.
    pub fn draw_line(&mut self, p_0: &Vec2, p_1: &Vec2, color: &Color)
        requires
            old(self).wf(),
            color.wf(),
            p_0.in_range(),
            p_1.in_range(),
        ensures
            final(self).wf(),
            final(self).viewport == old(self).viewport,
            forall|i: int|
                0 <= i < old(self).frame_buffer.len() ==> {
                    ||| final(self).frame_buffer[i] == old(self).frame_buffer[i]
                    ||| final(self).frame_buffer[i] == unit_to_byte(color.r as int)
                    ||| final(self).frame_buffer[i] == unit_to_byte(color.g as int)
                    ||| final(self).frame_buffer[i] == unit_to_byte(color.b as int)
                    ||| final(self).frame_buffer[i] == unit_to_byte(color.a as int)
                },
            crate::line::spec_clip(*p_0, *p_1, Bbox2::spec_viewport_box(old(self).viewport))
                is None ==> final(self).frame_buffer == old(self).frame_buffer,
            crate::line::spec_clip(
                *p_0,
                *p_1,
                Bbox2::spec_viewport_box(old(self).viewport),
            ) matches Some(qs) ==> exists|ps: Seq<Vec2>|
                {
                    &&& #[trigger] crate::line::bresenham_pixels(qs.0, qs.1, ps)
                    &&& forall|ix: int, iy: int|
                        0 <= ix < old(self).viewport.width && 0 <= iy < old(
                            self,
                        ).viewport.height ==> {
                            let base = 4 * #[trigger] texel_index(
                                old(self).viewport.width as int,
                                ix,
                                iy,
                            );
                            if line_hits_texel(old(self).viewport, ps, ix, iy) {
                                &&& final(self).frame_buffer[base] == unit_to_byte(color.r as int)
                                &&& final(self).frame_buffer[base + 1] == unit_to_byte(
                                    color.g as int,
                                )
                                &&& final(self).frame_buffer[base + 2] == unit_to_byte(
                                    color.b as int,
                                )
                                &&& final(self).frame_buffer[base + 3] == unit_to_byte(
                                    color.a as int,
                                )
                            } else {
                                &&& final(self).frame_buffer[base] == old(self).frame_buffer[base]
                                &&& final(self).frame_buffer[base + 1] == old(
                                    self,
                                ).frame_buffer[base + 1]
                                &&& final(self).frame_buffer[base + 2] == old(
                                    self,
                                ).frame_buffer[base + 2]
                                &&& final(self).frame_buffer[base + 3] == old(
                                    self,
                                ).frame_buffer[base + 3]
                            }
                        }
                },
            ({
                let vb = Bbox2::spec_viewport_box(old(self).viewport);
                let px = crate::line::pixel_of(p_0.x as int);
                let py = crate::line::pixel_of(p_0.y as int);
                let base = 4 * texel_index(
                    old(self).viewport.width as int,
                    px - old(self).viewport.offset_x,
                    old(self).viewport.height - 1 - (py - old(self).viewport.offset_y),
                );
                vb.spec_contains(p_0.x as int, p_0.y as int) && vb.spec_contains(
                    p_1.x as int,
                    p_1.y as int,
                ) && old(self).viewport.covers(px, py) ==> final(self).frame_buffer[base]
                    == unit_to_byte(color.r as int) && final(self).frame_buffer[base + 3]
                    == unit_to_byte(color.a as int)
            }),
    {
        let bbox = Bbox2::from_viewport(&self.viewport);
        let clip_result = clip_line(p_0, p_1, &bbox);
        if clip_result.is_none() {
            return;
        }
        let (q_0, q_1) = clip_result.unwrap();
        let pixels = travel_line_bresenham(&q_0, &q_1);
        let mut i: usize = 0;
        while i < pixels.len()
            invariant
                self.wf(),
                self.viewport == old(self).viewport,
                i <= pixels.len(),
                color.wf(),
                self.frame_buffer.len() == old(self).frame_buffer.len(),
                forall|j: int|
                    0 <= j < old(self).frame_buffer.len() ==> {
                        ||| self.frame_buffer[j] == old(self).frame_buffer[j]
                        ||| self.frame_buffer[j] == unit_to_byte(color.r as int)
                        ||| self.frame_buffer[j] == unit_to_byte(color.g as int)
                        ||| self.frame_buffer[j] == unit_to_byte(color.b as int)
                        ||| self.frame_buffer[j] == unit_to_byte(color.a as int)
                    },
                forall|j: int|
                    0 <= j < i && old(self).viewport.covers(
                        (#[trigger] pixels[j]).x as int,
                        pixels[j].y as int,
                    ) ==> {
                        let base = 4 * texel_index(
                            old(self).viewport.width as int,
                            pixels[j].x - old(self).viewport.offset_x,
                            old(self).viewport.height - 1 - (pixels[j].y
                                - old(self).viewport.offset_y),
                        );
                        &&& self.frame_buffer[base] == unit_to_byte(color.r as int)
                        &&& self.frame_buffer[base + 1] == unit_to_byte(color.g as int)
                        &&& self.frame_buffer[base + 2] == unit_to_byte(color.b as int)
                        &&& self.frame_buffer[base + 3] == unit_to_byte(color.a as int)
                    },
                forall|ix: int, iy: int|
                    0 <= ix < old(self).viewport.width && 0 <= iy < old(self).viewport.height
                        && !line_hits_texel(old(self).viewport, pixels@.take(i as int), ix, iy)
                        ==> {
                        let base = 4 * #[trigger] texel_index(
                            old(self).viewport.width as int,
                            ix,
                            iy,
                        );
                        &&& self.frame_buffer[base] == old(self).frame_buffer[base]
                        &&& self.frame_buffer[base + 1] == old(self).frame_buffer[base + 1]
                        &&& self.frame_buffer[base + 2] == old(self).frame_buffer[base + 2]
                        &&& self.frame_buffer[base + 3] == old(self).frame_buffer[base + 3]
                    },
            decreases pixels.len() - i,
        {
            let px = pixels[i];
            self.draw_pixel(&px, color);
            proof {
                let vp = old(self).viewport;
                assert forall|j: int|
                    0 <= j < i + 1 && vp.covers(
                        (#[trigger] pixels[j]).x as int,
                        pixels[j].y as int,
                    ) implies {
                    let base = 4 * texel_index(
                        vp.width as int,
                        pixels[j].x - vp.offset_x,
                        vp.height - 1 - (pixels[j].y - vp.offset_y),
                    );
                    &&& self.frame_buffer[base] == unit_to_byte(color.r as int)
                    &&& self.frame_buffer[base + 1] == unit_to_byte(color.g as int)
                    &&& self.frame_buffer[base + 2] == unit_to_byte(color.b as int)
                    &&& self.frame_buffer[base + 3] == unit_to_byte(color.a as int)
                } by {
                    lemma_texel_index_bound(
                        vp.width as int,
                        vp.height as int,
                        pixels[j].x - vp.offset_x,
                        vp.height - 1 - (pixels[j].y - vp.offset_y),
                    );
                    if vp.covers(px.x as int, px.y as int) {
                        lemma_texel_index_bound(
                            vp.width as int,
                            vp.height as int,
                            px.x - vp.offset_x,
                            vp.height - 1 - (px.y - vp.offset_y),
                        );
                    }
                }
                assert(pixels@.take(i + 1) == pixels@.take(i as int).push(pixels@[i as int]));
                assert forall|ix: int, iy: int|
                    0 <= ix < vp.width && 0 <= iy < vp.height && !line_hits_texel(
                        vp,
                        pixels@.take(i + 1),
                        ix,
                        iy,
                    ) implies {
                    let base = 4 * #[trigger] texel_index(vp.width as int, ix, iy);
                    &&& self.frame_buffer[base] == old(self).frame_buffer[base]
                    &&& self.frame_buffer[base + 1] == old(self).frame_buffer[base + 1]
                    &&& self.frame_buffer[base + 2] == old(self).frame_buffer[base + 2]
                    &&& self.frame_buffer[base + 3] == old(self).frame_buffer[base + 3]
                } by {
                    lemma_texel_index_bound(vp.width as int, vp.height as int, ix, iy);
                    assert(!line_hits_texel(vp, pixels@.take(i as int), ix, iy)) by {
                        if line_hits_texel(vp, pixels@.take(i as int), ix, iy) {
                            let j = choose|j: int|
                                0 <= j < pixels@.take(i as int).len() && vp.covers(
                                    (#[trigger] pixels@.take(i as int)[j]).x as int,
                                    pixels@.take(i as int)[j].y as int,
                                ) && pixels@.take(i as int)[j].x - vp.offset_x == ix && vp.height
                                    - 1 - (pixels@.take(i as int)[j].y - vp.offset_y) == iy;
                            assert(pixels@.take(i + 1)[j] == pixels@.take(i as int)[j]);
                        }
                    }
                    if vp.covers(px.x as int, px.y as int) {
                        let tx = px.x - vp.offset_x;
                        let ty = vp.height - 1 - (px.y - vp.offset_y);
                        lemma_texel_index_bound(vp.width as int, vp.height as int, tx as int, ty as int);
                        assert(pixels@.take(i + 1)[i as int] == px);
                        assert(!(tx == ix && ty == iy));
                        if texel_index(vp.width as int, tx as int, ty as int) == texel_index(
                            vp.width as int,
                            ix,
                            iy,
                        ) {
                            crate::texture::lemma_texel_index_injective(
                                vp.width as int,
                                tx as int,
                                ty as int,
                                ix,
                                iy,
                            );
                        }
                    }
                }
            }
            i = i + 1;
        }
        proof {
            let vp = old(self).viewport;
            assert(pixels@.take(pixels@.len() as int) == pixels@);
            assert forall|ix: int, iy: int|
                0 <= ix < vp.width && 0 <= iy < vp.height implies {
                let base = 4 * #[trigger] texel_index(vp.width as int, ix, iy);
                if line_hits_texel(vp, pixels@, ix, iy) {
                    &&& self.frame_buffer[base] == unit_to_byte(color.r as int)
                    &&& self.frame_buffer[base + 1] == unit_to_byte(color.g as int)
                    &&& self.frame_buffer[base + 2] == unit_to_byte(color.b as int)
                    &&& self.frame_buffer[base + 3] == unit_to_byte(color.a as int)
                } else {
                    &&& self.frame_buffer[base] == old(self).frame_buffer[base]
                    &&& self.frame_buffer[base + 1] == old(self).frame_buffer[base + 1]
                    &&& self.frame_buffer[base + 2] == old(self).frame_buffer[base + 2]
                    &&& self.frame_buffer[base + 3] == old(self).frame_buffer[base + 3]
                }
            } by {
                if line_hits_texel(vp, pixels@, ix, iy) {
                    let j = choose|j: int|
                        0 <= j < pixels@.len() && vp.covers(
                            (#[trigger] pixels@[j]).x as int,
                            pixels@[j].y as int,
                        ) && pixels@[j].x - vp.offset_x == ix && vp.height - 1 - (pixels@[j].y
                            - vp.offset_y) == iy;
                }
            }
        }
    }
}

} // verus!
