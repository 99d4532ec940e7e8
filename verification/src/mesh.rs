//! Mesh data as the loader collaborator hands it over: flattened triangle
//! lists of vertices with optional shading attributes.

use crate::color::Color;
use crate::vector::{Vec2, Vec3, Vec4};
use vstd::prelude::*;

verus! {

/// One vertex of a flattened triangle list: a homogeneous position and the
/// optional attributes the loader decoded for it.
#[derive(Debug, Clone, Copy)]
pub struct Vertex {
    pub position: Vec4,
    pub normal: Option<Vec3>,
    pub color: Option<Color>,
    pub texcoord: Option<Vec2>,
}

/// A mesh: consecutive groups of three vertices form its triangles; no
/// index buffer is involved at this stage.
#[derive(Debug)]
pub struct Mesh {
    pub vertices: Vec<Vertex>,
}

} // verus!
