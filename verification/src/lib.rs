//! A backend-agnostic 2D vector-graphics canvas.
//!
//! Shapes are accumulated on a [`Canvas`] in world space, seen through a
//! camera transform (translate, rotate, zoom), and handed in camera space to
//! a [`Renderer`] backend (SVG markup, Wavefront OBJ meshes, or any backend a
//! user implements).
//!
//! Every scalar in this crate is a fixed-point value: an `i64` counting
//! `1/10000`ths of a coordinate unit (see [`num::SCALE`]).

pub mod canvas;
pub mod color;
pub mod geometry;
pub mod num;
pub mod obj_renderer;
pub mod path_builder;
pub mod stroke_geometry;
pub mod svg_renderer;
pub mod text;
pub mod transform;

pub use canvas::{Canvas, LineEnd, Renderer, Shape, Stroke};
pub use color::{Color, ParseColorError};
pub use geometry::Point;
pub use obj_renderer::{ObjRenderer, ObjRendererSettings};
pub use path_builder::PathBuilder;
pub use svg_renderer::SvgRenderer;
pub use transform::Transform;
pub use num::{SCALE, COORD_LIMIT, MAT_LIMIT, SIZE_LIMIT, PPU_LIMIT};
