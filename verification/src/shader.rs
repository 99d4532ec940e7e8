//! The programmable shader stages.
//!
//! A shader program is user code: the pipeline promises nothing about what
//! it returns, and the render pass is verified to handle every possible
//! output — positions are range-checked before rasterization, and fragment
//! colors are clamped before they reach the frame buffer.

use crate::color::Color;
use crate::interpolate::{BaryCoord, Interpolate};
use crate::vector::Vec4;
use vstd::prelude::*;

verus! {

/// What the vertex stage produces for one vertex index: a homogeneous
/// clip-space position and the varying payload to interpolate across the
/// triangle.
#[derive(Debug, Clone, Copy)]
pub struct VsOutput<V> {
    pub position: Vec4,
    pub varying: V,
}

/// What the fragment stage consumes: the fragment's raster-space position
/// (x, y at the pixel center, z the interpolated depth), the interpolated
/// varying payload, and the fragment's barycentric coordinate within its
/// source triangle.
#[derive(Debug, Clone, Copy)]
pub struct FsPayload<V> {
    pub position: Vec4,
    pub varying: V,
    pub bary_coord: BaryCoord,
}

/// A shader program: a vertex stage invoked once per vertex index, reading
/// only data the program owns, and a fragment stage turning an interpolated
/// payload into a color.
pub trait ShaderProgram: Sized {
    type Varying: Interpolate;

    fn vertex_shader(&self, index: usize) -> VsOutput<Self::Varying>;

    fn fragment_shader(&self, payload: FsPayload<Self::Varying>) -> Color;
}

} // verus!
