//! Pipeline state: face culling, depth writes and the depth comparison.

use crate::shader::ShaderProgram;
use crate::vector::Vec2;
use vstd::prelude::*;

verus! {

/// Which faces are skipped before rasterization.  Front faces wind
/// counter-clockwise in screen space (positive signed area).
#[derive(Debug, Clone, Copy, PartialEq, Eq, Structural)]
pub enum CullMode {
    Disabled,
    Front,
    Back,
}

impl CullMode {
    /// Whether a triangle with the given doubled signed area is skipped.
    /// A degenerate triangle (zero area) is never culled here; it simply
    /// yields no fragments.
    pub open spec fn spec_culls(self, area_2: int) -> bool {
        match self {
            CullMode::Disabled => false,
            CullMode::Front => area_2 > 0,
            CullMode::Back => area_2 < 0,
        }
    }

    pub fn culls(self, area_2: i128) -> (r: bool)
        ensures
            r == self.spec_culls(area_2 as int),
    {
        match self {
            CullMode::Disabled => false,
            CullMode::Front => area_2 > 0,
            CullMode::Back => area_2 < 0,
        }
    }
}

/// Twice the signed area of the screen-space triangle: positive for
/// counter-clockwise winding.
pub open spec fn spec_signed_area_2(p_0: Vec2, p_1: Vec2, p_2: Vec2) -> int {
    (p_1.x - p_0.x) * (p_2.y - p_0.y) - (p_1.y - p_0.y) * (p_2.x - p_0.x)
}

pub fn signed_area_2(p_0: &Vec2, p_1: &Vec2, p_2: &Vec2) -> (r: i128)
    requires
        p_0.in_range(),
        p_1.in_range(),
        p_2.in_range(),
    ensures
        r == spec_signed_area_2(*p_0, *p_1, *p_2),
{
    proof {
        lemma_cross_bound(
            p_1.x - p_0.x,
            p_2.y - p_0.y,
            p_1.y - p_0.y,
            p_2.x - p_0.x,
        );
    }
    (p_1.x as i128 - p_0.x as i128) * (p_2.y as i128 - p_0.y as i128) - (p_1.y as i128
        - p_0.y as i128) * (p_2.x as i128 - p_0.x as i128)
}

proof fn lemma_cross_bound(a: int, b: int, c: int, d: int) by (nonlinear_arith)
    requires
        -0x800_0000 <= a <= 0x800_0000,
        -0x800_0000 <= b <= 0x800_0000,
        -0x800_0000 <= c <= 0x800_0000,
        -0x800_0000 <= d <= 0x800_0000,
    ensures
        -0x40_0000_0000_0000 <= a * b <= 0x40_0000_0000_0000,
        -0x40_0000_0000_0000 <= c * d <= 0x40_0000_0000_0000,
{
}

/// The classic depth comparison functions, comparing a fragment's depth
/// against the depth already stored for its pixel.
#[derive(Debug, Clone, Copy, PartialEq, Eq, Structural)]
pub enum DepthCompare {
    Never,
    Always,
    Less,
    LessEqual,
    Greater,
    GreaterEqual,
    Equal,
    NotEqual,
}

impl DepthCompare {
    pub open spec fn spec_test(self, depth: int, prev_depth: int) -> bool {
        match self {
            DepthCompare::Never => false,
            DepthCompare::Always => true,
            DepthCompare::Less => depth < prev_depth,
            DepthCompare::LessEqual => depth <= prev_depth,
            DepthCompare::Greater => depth > prev_depth,
            DepthCompare::GreaterEqual => depth >= prev_depth,
            DepthCompare::Equal => depth == prev_depth,
            DepthCompare::NotEqual => depth != prev_depth,
        }
    }

    pub fn test(self, depth: i64, prev_depth: i64) -> (r: bool)
        ensures
            r == self.spec_test(depth as int, prev_depth as int),
    {
        match self {
            DepthCompare::Never => false,
            DepthCompare::Always => true,
            DepthCompare::Less => depth < prev_depth,
            DepthCompare::LessEqual => depth <= prev_depth,
            DepthCompare::Greater => depth > prev_depth,
            DepthCompare::GreaterEqual => depth >= prev_depth,
            DepthCompare::Equal => depth == prev_depth,
            DepthCompare::NotEqual => depth != prev_depth,
        }
    }
}

/// Whether a fragment at depth `depth` passes against a stored depth entry:
/// an entry never written always passes, whatever the comparison.
pub open spec fn spec_depth_pass(compare: DepthCompare, depth: int, prev: Option<i64>) -> bool {
    match prev {
        Option::None => true,
        Option::Some(p) => compare.spec_test(depth, p as int),
    }
}

pub fn depth_pass(compare: DepthCompare, depth: i64, prev: Option<i64>) -> (r: bool)
    ensures
        r == spec_depth_pass(compare, depth as int, prev),
{
    match prev {
        Option::None => true,
        Option::Some(p) => compare.test(depth, p),
    }
}

/// Chained depth writes stay accountable to the frame's starting entry:
/// a fragment that passes against the current entry — itself either the
/// starting entry or a passing overwrite of it — either restores the
/// starting depth or passes against it too, whatever the comparison.
pub proof fn lemma_depth_pass_chain(
    compare: DepthCompare,
    depth: i64,
    cur: Option<i64>,
    first: Option<i64>,
)
    requires
        spec_depth_pass(compare, depth as int, cur),
        cur == first || (cur matches Some(zc) && spec_depth_pass(compare, zc as int, first)),
    ensures
        first == Some(depth) || spec_depth_pass(compare, depth as int, first),
{
}

/// Everything a draw call needs besides the vertex count: the shader
/// program and the fixed-function state.
pub struct Pipeline<'a, P: ShaderProgram> {
    pub program: &'a P,
    pub cull_mode: CullMode,
    pub depth_write_enable: bool,
    pub depth_compare: DepthCompare,
}

} // verus!
