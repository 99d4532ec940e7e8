//! A CPU-only triangle/line rasterizer with a verified core.
//!
//! Geometry, colors and interpolation weights are carried in fixed-point
//! arithmetic (see [`fixed`]): every coordinate is an integer count of
//! `fixed::SCALE`-ths of a pixel (or of a unit of normalized space).  This
//! keeps the whole pipeline — clipping, scan conversion, barycentric
//! interpolation, depth testing, texture sampling — in exactly specified
//! integer arithmetic.

pub mod basetype;
pub mod color;
pub mod fixed;
pub mod interpolate;
pub mod line;
pub mod mesh;
pub mod pass;
pub mod pipeline;
pub mod renderer;
pub mod shader;
pub mod texture;
pub mod triangle;
pub mod vector;
