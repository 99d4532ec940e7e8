//! Viewports and axis-aligned bounding boxes.

use crate::fixed::SCALE;
use crate::vector::{Vec2, Vec3};
use vstd::math::{max, min};
use vstd::prelude::*;

verus! {

/// Largest viewport side length the pipeline accepts, in pixels.  Together
/// with [`crate::fixed::COORD_LIMIT`] it keeps every coordinate that the
/// rasterizer touches inside the fixed-point range.
pub const MAX_DIM: u32 = 1024;

/// The target raster region: a width × height block of pixels, optionally
/// offset within a larger coordinate system.
#[derive(Debug, Clone, Copy, PartialEq, Eq, Structural)]
pub struct Viewport {
    pub offset_x: i32,
    pub offset_y: i32,
    pub width: u32,
    pub height: u32,
}

impl Viewport {
    /// A viewport fit for drawing: bounded sides, and offsets that keep the
    /// whole raster region within the fixed-point coordinate range.
    pub open spec fn valid(self) -> bool {
        self.width <= MAX_DIM && self.height <= MAX_DIM && -(MAX_DIM as int) <= self.offset_x
            && self.offset_x + self.width <= MAX_DIM as int && -(MAX_DIM as int) <= self.offset_y
            && self.offset_y + self.height <= MAX_DIM as int
    }

    /// Whether the pixel `(x, y)` lies within the raster region.
    pub open spec fn covers(self, x: int, y: int) -> bool {
        self.offset_x <= x < self.offset_x + self.width && self.offset_y <= y < self.offset_y
            + self.height
    }

    pub fn new(offset_x: i32, offset_y: i32, width: u32, height: u32) -> (r: Viewport)
        ensures
            r == (Viewport { offset_x, offset_y, width, height }),
    {
        Viewport { offset_x, offset_y, width, height }
    }
}

/// A 2D axis-aligned box over fixed-point coordinates: `l <= x <= r`,
/// `b <= y <= t`.
#[derive(Debug, Clone, Copy, PartialEq, Eq, Structural)]
pub struct Bbox2 {
    pub l: i64,
    pub r: i64,
    pub b: i64,
    pub t: i64,
}

impl Bbox2 {
    /// The box is non-degenerate: each lower bound is at most its upper bound.
    pub open spec fn wf(self) -> bool {
        self.l <= self.r && self.b <= self.t
    }

    /// Whether the point `(x, y)` lies inside the box (boundary included).
    pub open spec fn spec_contains(self, x: int, y: int) -> bool {
        self.l <= x <= self.r && self.b <= y <= self.t
    }

    /// All four bounds stay within the fixed-point coordinate range.
    pub open spec fn in_range(self) -> bool {
        -crate::fixed::COORD_LIMIT <= self.l <= crate::fixed::COORD_LIMIT
            && -crate::fixed::COORD_LIMIT <= self.r <= crate::fixed::COORD_LIMIT
            && -crate::fixed::COORD_LIMIT <= self.b <= crate::fixed::COORD_LIMIT
            && -crate::fixed::COORD_LIMIT <= self.t <= crate::fixed::COORD_LIMIT
    }

    pub fn new(l: i64, r: i64, b: i64, t: i64) -> (bb: Bbox2)
        ensures
            bb == (Bbox2 { l, r, b, t }),
    {
        Bbox2 { l, r, b, t }
    }

    /// The smallest box containing every point of a non-empty set.
    pub fn from_points(points: &Vec<Vec2>) -> (bb: Bbox2)
        requires
            points.len() > 0,
        ensures
            forall|i: int|
                0 <= i < points.len() ==> bb.spec_contains(
                    points[i].x as int,
                    points[i].y as int,
                ),
            exists|i: int| 0 <= i < points.len() && points[i].x == bb.l,
            exists|i: int| 0 <= i < points.len() && points[i].x == bb.r,
            exists|i: int| 0 <= i < points.len() && points[i].y == bb.b,
            exists|i: int| 0 <= i < points.len() && points[i].y == bb.t,
            bb.wf(),
    {
        let mut l = points[0].x;
        let mut r = points[0].x;
        let mut b = points[0].y;
        let mut t = points[0].y;
        let mut i: usize = 1;
        while i < points.len()
            invariant
                1 <= i <= points.len(),
                forall|j: int|
                    0 <= j < i ==> l <= (#[trigger] points[j]).x <= r && b <= points[j].y <= t,
                exists|j: int| 0 <= j < i && points[j].x == l,
                exists|j: int| 0 <= j < i && points[j].x == r,
                exists|j: int| 0 <= j < i && points[j].y == b,
                exists|j: int| 0 <= j < i && points[j].y == t,
            decreases points.len() - i,
        {
            let p = points[i];
            if p.x < l {
                l = p.x;
            }
            if p.x > r {
                r = p.x;
            }
            if p.y < b {
                b = p.y;
            }
            if p.y > t {
                t = p.y;
            }
            i = i + 1;
        }
        Bbox2 { l, r, b, t }
    }

    /// The box covering a whole viewport, in fixed-point units, offsets
    /// included (the specification-level value).
    pub open spec fn spec_viewport_box(viewport: Viewport) -> Bbox2 {
        Bbox2 {
            l: (viewport.offset_x as int * SCALE) as i64,
            r: ((viewport.offset_x + viewport.width) * SCALE) as i64,
            b: (viewport.offset_y as int * SCALE) as i64,
            t: ((viewport.offset_y + viewport.height) * SCALE) as i64,
        }
    }

    /// The box covering a whole viewport, in fixed-point units, offsets
    /// included.
    pub fn from_viewport(viewport: &Viewport) -> (bb: Bbox2)
        requires
            viewport.valid(),
        ensures
            bb == Bbox2::spec_viewport_box(*viewport),
            bb.l == viewport.offset_x as int * SCALE,
            bb.r == (viewport.offset_x + viewport.width) * SCALE,
            bb.b == viewport.offset_y as int * SCALE,
            bb.t == (viewport.offset_y + viewport.height) * SCALE,
            bb.wf(),
    {
        let l = (viewport.offset_x as i64) * SCALE;
        let r = (viewport.offset_x as i64 + viewport.width as i64) * SCALE;
        let b = (viewport.offset_y as i64) * SCALE;
        let t = (viewport.offset_y as i64 + viewport.height as i64) * SCALE;
        Bbox2 { l, r, b, t }
    }

    /// The intersection of two boxes, or `None` when they do not overlap.
    pub fn intersect(&self, other: &Bbox2) -> (res: Option<Bbox2>)
        ensures
            res is Some <==> max(self.l as int, other.l as int) <= min(
                self.r as int,
                other.r as int,
            ) && max(self.b as int, other.b as int) <= min(self.t as int, other.t as int),
            res is Some ==> res.unwrap() == (Bbox2 {
                l: if self.l >= other.l { self.l } else { other.l },
                r: if self.r <= other.r { self.r } else { other.r },
                b: if self.b >= other.b { self.b } else { other.b },
                t: if self.t <= other.t { self.t } else { other.t },
            }),
            res is Some ==> res.unwrap().wf(),
            res is Some ==> forall|x: int, y: int|
                res.unwrap().spec_contains(x, y) <==> self.spec_contains(x, y)
                    && other.spec_contains(x, y),
    {
        let l = if self.l >= other.l {
            self.l
        } else {
            other.l
        };
        let r = if self.r <= other.r {
            self.r
        } else {
            other.r
        };
        let b = if self.b >= other.b {
            self.b
        } else {
            other.b
        };
        let t = if self.t <= other.t {
            self.t
        } else {
            other.t
        };
        if l <= r && b <= t {
            Some(Bbox2 { l, r, b, t })
        } else {
            None
        }
    }
}

/// A 3D axis-aligned box over fixed-point coordinates, adding a near/far
/// range `n <= z <= f`.
#[derive(Debug, Clone, Copy, PartialEq, Eq, Structural)]
pub struct Bbox3 {
    pub l: i64,
    pub r: i64,
    pub b: i64,
    pub t: i64,
    pub n: i64,
    pub f: i64,
}

impl Bbox3 {
    pub open spec fn wf(self) -> bool {
        self.l <= self.r && self.b <= self.t && self.n <= self.f
    }

    pub open spec fn spec_contains(self, x: int, y: int, z: int) -> bool {
        self.l <= x <= self.r && self.b <= y <= self.t && self.n <= z <= self.f
    }

    pub fn new(l: i64, r: i64, b: i64, t: i64, n: i64, f: i64) -> (bb: Bbox3)
        ensures
            bb == (Bbox3 { l, r, b, t, n, f }),
    {
        Bbox3 { l, r, b, t, n, f }
    }

    /// The smallest box containing every point of a non-empty set.
    pub fn from_points(points: &Vec<Vec3>) -> (bb: Bbox3)
        requires
            points.len() > 0,
        ensures
            forall|i: int|
                0 <= i < points.len() ==> bb.spec_contains(
                    points[i].x as int,
                    points[i].y as int,
                    points[i].z as int,
                ),
            exists|i: int| 0 <= i < points.len() && points[i].x == bb.l,
            exists|i: int| 0 <= i < points.len() && points[i].x == bb.r,
            exists|i: int| 0 <= i < points.len() && points[i].y == bb.b,
            exists|i: int| 0 <= i < points.len() && points[i].y == bb.t,
            exists|i: int| 0 <= i < points.len() && points[i].z == bb.n,
            exists|i: int| 0 <= i < points.len() && points[i].z == bb.f,
            bb.wf(),
    {
        let mut l = points[0].x;
        let mut r = points[0].x;
        let mut b = points[0].y;
        let mut t = points[0].y;
        let mut n = points[0].z;
        let mut f = points[0].z;
        let mut i: usize = 1;
        while i < points.len()
            invariant
                1 <= i <= points.len(),
                forall|j: int|
                    0 <= j < i ==> l <= (#[trigger] points[j]).x <= r && b <= points[j].y <= t
                        && n <= points[j].z <= f,
                exists|j: int| 0 <= j < i && points[j].x == l,
                exists|j: int| 0 <= j < i && points[j].x == r,
                exists|j: int| 0 <= j < i && points[j].y == b,
                exists|j: int| 0 <= j < i && points[j].y == t,
                exists|j: int| 0 <= j < i && points[j].z == n,
                exists|j: int| 0 <= j < i && points[j].z == f,
            decreases points.len() - i,
        {
            let p = points[i];
            if p.x < l {
                l = p.x;
            }
            if p.x > r {
                r = p.x;
            }
            if p.y < b {
                b = p.y;
            }
            if p.y > t {
                t = p.y;
            }
            if p.z < n {
                n = p.z;
            }
            if p.z > f {
                f = p.z;
            }
            i = i + 1;
        }
        Bbox3 { l, r, b, t, n, f }
    }

    /// The intersection of two boxes, or `None` when they do not overlap.
    pub fn intersect(&self, other: &Bbox3) -> (res: Option<Bbox3>)
        ensures
            res is Some <==> max(self.l as int, other.l as int) <= min(
                self.r as int,
                other.r as int,
            ) && max(self.b as int, other.b as int) <= min(self.t as int, other.t as int) && max(
                self.n as int,
                other.n as int,
            ) <= min(self.f as int, other.f as int),
            res is Some ==> forall|x: int, y: int, z: int|
                res.unwrap().spec_contains(x, y, z) <==> self.spec_contains(x, y, z)
                    && other.spec_contains(x, y, z),
    {
        let l = if self.l >= other.l {
            self.l
        } else {
            other.l
        };
        let r = if self.r <= other.r {
            self.r
        } else {
            other.r
        };
        let b = if self.b >= other.b {
            self.b
        } else {
            other.b
        };
        let t = if self.t <= other.t {
            self.t
        } else {
            other.t
        };
        let n = if self.n >= other.n {
            self.n
        } else {
            other.n
        };
        let f = if self.f <= other.f {
            self.f
        } else {
            other.f
        };
        if l <= r && b <= t && n <= f {
            Some(Bbox3 { l, r, b, t, n, f })
        } else {
            None
        }
    }
}

} // verus!
