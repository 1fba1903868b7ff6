//! The canvas: an ordered list of shapes in world space, seen through a
//! camera transform.
//!
//! The camera is a 2x2 fixed-point matrix `M` plus a translation `t` in
//! world units and a scalar zoom factor. The convention, which the tests
//! pin, is:
//!
//! * `to_camera_space(p) = M * (p - t)`
//! * `to_world_space(q)  = inverse(M) * q + t`
//!
//! `rotate_camera` composes a rotation before the existing transform
//! (left-multiplication), `zoom_camera` scales the matrix, and
//! `move_camera` adds to `t`. The inverse is computed from the adjugate and
//! determinant on every use, so the two maps are exact inverses of one
//! another up to fixed-point rounding (see
//! [`lemma_camera_round_trip_exact`]).
//!
//! Each camera mutation first computes its candidate matrix; a candidate
//! whose entries leave the representable range, or whose determinant
//! collapses to zero or below, is rejected and leaves the camera unchanged,
//! so the camera always stays invertible.

use vstd::prelude::*;
use crate::color::Color;
use crate::geometry::{
    Point, ANGLE_LIMIT, ROT_LIMIT, spec_unit_vec, unit_vec, regular_polygon_points,
    spec_regular_polygon_points, TAU,
};
use crate::num::{
    SCALE, COORD_LIMIT, MAT_LIMIT, PPU_LIMIT, rdiv, clamp_spec, rdiv64, clamp64, fmul,
    lemma_rdiv_exact,
};
use crate::path_builder::{
    PathBuilder, spec_build_effect, spec_build_effect_absolute, spec_builder_runs,
    spec_runs_build_effect, spec_runs_build_effect_absolute, spec_quad_points, spec_cubic_points,
};

verus! {

/// A polygonal shape: a point sequence with an optional stroke along it and
/// an optional fill inside it.
#[derive(Debug, Clone)]
pub struct Shape {
    /// Points that make up the shape, in the space the owner stores them in
    /// (world space on a canvas, camera space when handed to a renderer).
    /// For a complete outline the first and last point must be equal.
    pub points: Vec<Point>,
    /// The stroke along the points.
    pub stroke: Option<Stroke>,
    /// The fill inside the points.
    pub fill: Option<Color>,
}

/// A closed outline: at least three points, with the first exactly equal to
/// the last.
pub open spec fn spec_is_polygon(pts: Seq<Point>) -> bool {
    pts.len() >= 3 && pts[0] == pts[pts.len() - 1]
}

impl Shape {
    /// Whether the shape is a polygon (closed outline); otherwise it is a
    /// polyline. A polygon has at least three points and ends exactly where
    /// it starts.
    pub fn is_polygon(&self) -> (r: bool)
        ensures
            r == spec_is_polygon(self.points@),
    {
        if self.points.len() < 3 {
            false
        } else {
            let first = self.points[0];
            let last = self.points[self.points.len() - 1];
            first.x == last.x && first.y == last.y
        }
    }
}

/// How a stroked line terminates at its open ends.
#[derive(Debug, Clone, Copy, PartialEq, Eq, Structural)]
pub enum LineEnd {
    /// The line stops exactly at the final point with a flat end.
    Butt,
    /// The line is extended by a half circle around the final point.
    Round,
}

/// A line stroke: color, screen-space width, and line-cap style.
#[derive(Debug, Clone, Copy, PartialEq, Eq, Structural)]
pub struct Stroke {
    /// Color of the stroke.
    pub color: Color,
    /// Width of the stroke, in screen-space units: renderers scale it by
    /// the camera zoom at render time.
    pub width: i64,
    /// How each end of the line terminates.
    pub line_end: LineEnd,
}

impl Stroke {
    /// Create a new stroke.
    pub fn new(color: Color, width: i64, line_end: LineEnd) -> (s: Stroke)
        ensures
            s == (Stroke { color, width, line_end }),
    {
        Stroke { color, width, line_end }
    }
}

/// A rendering backend for [`Canvas`]: it receives zero or more shapes,
/// every coordinate already in camera space, and is then consumed once to
/// produce its output.
pub trait Renderer: Sized {
    /// The format the renderer produces.
    type Output;

    /// Render one shape, whose coordinates are in camera space.
    fn render(&mut self, shape: &Shape);

    /// Finish rendering and produce the output.
    fn finalize(self) -> Self::Output;
}

/// A canvas accumulating shapes in world space behind a camera transform.
///
/// The fields are public so that specifications can speak of them directly;
/// use the camera methods to mutate the transform, since they are what
/// keeps [`Canvas::wf`] true.
#[derive(Debug, Clone)]
pub struct Canvas {
    /// Flattening resolution for circles and curves, in points per unit.
    pub points_per_unit: usize,
    /// The accumulated zoom factor, used to scale stroke widths at render
    /// time.
    pub zoom: i64,
    /// Horizontal camera translation, in world units.
    pub tx: i64,
    /// Vertical camera translation, in world units.
    pub ty: i64,
    /// World-to-camera matrix, row 0 column 0.
    pub m00: i64,
    /// World-to-camera matrix, row 0 column 1.
    pub m01: i64,
    /// World-to-camera matrix, row 1 column 0.
    pub m10: i64,
    /// World-to-camera matrix, row 1 column 1.
    pub m11: i64,
    /// The shapes drawn so far, in world space.
    pub shapes: Vec<Shape>,
}

/// The determinant of the camera matrix, in raw squared units.
pub open spec fn spec_det(c: Canvas) -> int {
    c.m00 * c.m11 - c.m01 * c.m10
}

/// `SCALE` times the exact horizontal camera coordinate of a world point.
pub open spec fn spec_cam_num_x(c: Canvas, p: Point) -> int {
    c.m00 * (p.x - c.tx) + c.m01 * (p.y - c.ty)
}

/// `SCALE` times the exact vertical camera coordinate of a world point.
pub open spec fn spec_cam_num_y(c: Canvas, p: Point) -> int {
    c.m10 * (p.x - c.tx) + c.m11 * (p.y - c.ty)
}

/// Horizontal camera coordinate of a world point, rounded to the grid.
pub open spec fn spec_to_camera_x(c: Canvas, p: Point) -> int {
    rdiv(spec_cam_num_x(c, p), SCALE as int)
}

/// Vertical camera coordinate of a world point, rounded to the grid.
pub open spec fn spec_to_camera_y(c: Canvas, p: Point) -> int {
    rdiv(spec_cam_num_y(c, p), SCALE as int)
}

/// Horizontal world coordinate of a camera point: the adjugate applied to
/// the point, divided by the determinant, plus the translation.
pub open spec fn spec_to_world_x(c: Canvas, q: Point) -> int {
    rdiv(SCALE as int * (c.m11 * q.x - c.m01 * q.y), spec_det(c)) + c.tx
}

/// Vertical world coordinate of a camera point.
pub open spec fn spec_to_world_y(c: Canvas, q: Point) -> int {
    rdiv(SCALE as int * (c.m00 * q.y - c.m10 * q.x), spec_det(c)) + c.ty
}

/// The camera coordinates of a world point, as a point.
pub open spec fn spec_to_camera_pt(c: Canvas, p: Point) -> Point {
    Point { x: spec_to_camera_x(c, p) as i64, y: spec_to_camera_y(c, p) as i64 }
}

/// The world coordinates of a camera point, as a point.
pub open spec fn spec_to_world_pt(c: Canvas, q: Point) -> Point {
    Point { x: spec_to_world_x(c, q) as i64, y: spec_to_world_y(c, q) as i64 }
}

/// The two cameras agree on everything but the shape list.
pub open spec fn camera_eq(a: Canvas, b: Canvas) -> bool {
    &&& a.points_per_unit == b.points_per_unit
    &&& a.zoom == b.zoom
    &&& a.tx == b.tx
    &&& a.ty == b.ty
    &&& a.m00 == b.m00
    &&& a.m01 == b.m01
    &&& a.m10 == b.m10
    &&& a.m11 == b.m11
}

/// Adjacent duplicate points removed: each point is kept exactly when it
/// differs from its predecessor in the input sequence.
pub open spec fn spec_dedup(pts: Seq<Point>) -> Seq<Point>
    decreases pts.len(),
{
    if pts.len() <= 1 {
        pts
    } else {
        let init = spec_dedup(pts.drop_last());
        if pts[pts.len() - 1] == pts[pts.len() - 2] {
            init
        } else {
            init.push(pts[pts.len() - 1])
        }
    }
}

/// The effect of the world-space drawing entry point: adjacent duplicates
/// collapsed, then, unless one point or less remains, the deduplicated
/// points mapped to world space and appended as one new shape. A shape that
/// collapses to one point or less is dropped and the canvas is unchanged.
pub open spec fn spec_world_shape_appended(
    old: Canvas,
    new: Canvas,
    pts: Seq<Point>,
    stroke: Option<Stroke>,
    fill: Option<Color>,
) -> bool {
    spec_shapes_appended(old, old.shapes@, new.shapes@, pts, stroke, fill)
}

/// The shape-list form of [`spec_world_shape_appended`]: what the
/// world-space entry point leaves in a shape list that held `base`.
pub open spec fn spec_shapes_appended(
    cam: Canvas,
    base: Seq<Shape>,
    new: Seq<Shape>,
    pts: Seq<Point>,
    stroke: Option<Stroke>,
    fill: Option<Color>,
) -> bool {
    let ded = spec_dedup(pts);
    if ded.len() <= 1 {
        new == base
    } else {
        &&& new.len() == base.len() + 1
        &&& forall|i: int| 0 <= i < base.len() ==> new[i] == base[i]
        &&& new.last().points@ == ded.map_values(|q: Point| spec_to_world_pt(cam, q))
        &&& new.last().stroke == stroke
        &&& new.last().fill == fill
    }
}

/// The effect of the absolute drawing entry point: the points stored as
/// given (no deduplication, no space conversion), unless there is one point
/// or less, in which case the canvas is unchanged.
pub open spec fn spec_absolute_shape_appended(
    old: Canvas,
    new: Canvas,
    pts: Seq<Point>,
    stroke: Option<Stroke>,
    fill: Option<Color>,
) -> bool {
    spec_shapes_appended_absolute(old.shapes@, new.shapes@, pts, stroke, fill)
}

/// The shape-list form of [`spec_absolute_shape_appended`]: what the
/// absolute entry point leaves in a shape list that held `base`.
pub open spec fn spec_shapes_appended_absolute(
    base: Seq<Shape>,
    new: Seq<Shape>,
    pts: Seq<Point>,
    stroke: Option<Stroke>,
    fill: Option<Color>,
) -> bool {
    if pts.len() <= 1 {
        new == base
    } else {
        &&& new.len() == base.len() + 1
        &&& forall|i: int| 0 <= i < base.len() ==> new[i] == base[i]
        &&& new.last().points@ == pts
        &&& new.last().stroke == stroke
        &&& new.last().fill == fill
    }
}

impl Canvas {
    /// The camera state is well formed: matrix entries, translation and
    /// zoom in range, and the matrix invertible with positive determinant.
    pub open spec fn wf(self) -> bool {
        &&& -MAT_LIMIT <= self.m00 <= MAT_LIMIT
        &&& -MAT_LIMIT <= self.m01 <= MAT_LIMIT
        &&& -MAT_LIMIT <= self.m10 <= MAT_LIMIT
        &&& -MAT_LIMIT <= self.m11 <= MAT_LIMIT
        &&& -COORD_LIMIT <= self.tx <= COORD_LIMIT
        &&& -COORD_LIMIT <= self.ty <= COORD_LIMIT
        &&& 1 <= self.zoom <= MAT_LIMIT
        &&& 1 <= spec_det(self)
        &&& self.points_per_unit <= PPU_LIMIT
    }

    /// The freshly created camera: identity matrix, no translation, unit
    /// zoom.
    pub open spec fn is_fresh_camera(self) -> bool {
        &&& self.zoom == SCALE
        &&& self.tx == 0
        &&& self.ty == 0
        &&& self.m00 == SCALE
        &&& self.m01 == 0
        &&& self.m10 == 0
        &&& self.m11 == SCALE
    }

    /// Create a new canvas with the given flattening resolution for
    /// circles and curves.
    pub fn new(points_per_unit: usize) -> (c: Canvas)
        requires
            points_per_unit <= PPU_LIMIT,
        ensures
            c.wf(),
            c.is_fresh_camera(),
            c.points_per_unit == points_per_unit,
            c.shapes@.len() == 0,
    {
        let c = Canvas {
            points_per_unit,
            zoom: SCALE,
            tx: 0,
            ty: 0,
            m00: SCALE,
            m01: 0,
            m10: 0,
            m11: SCALE,
            shapes: Vec::new(),
        };
        proof {
            assert(spec_det(c) == SCALE as int * SCALE as int) by (nonlinear_arith)
                requires
                    c.m00 == SCALE && c.m11 == SCALE && c.m01 == 0 && c.m10 == 0,
            ;
        }
        c
    }

    /// Transform a point from world space to camera space.
    pub fn to_camera_space(&self, point: Point) -> (r: Point)
        requires
            self.wf(),
            point.in_bounds(),
        ensures
            r.x == spec_to_camera_x(*self, point),
            r.y == spec_to_camera_y(*self, point),
    {
        let dx: i64 = point.x - self.tx;
        let dy: i64 = point.y - self.ty;
        proof {
            assert(-800_000_000_000_000i64 <= self.m00 * dx <= 800_000_000_000_000i64
                && -800_000_000_000_000i64 <= self.m01 * dy <= 800_000_000_000_000i64
                && -800_000_000_000_000i64 <= self.m10 * dx <= 800_000_000_000_000i64
                && -800_000_000_000_000i64 <= self.m11 * dy <= 800_000_000_000_000i64)
                by (nonlinear_arith)
                requires
                    -MAT_LIMIT <= self.m00 <= MAT_LIMIT,
                    -MAT_LIMIT <= self.m01 <= MAT_LIMIT,
                    -MAT_LIMIT <= self.m10 <= MAT_LIMIT,
                    -MAT_LIMIT <= self.m11 <= MAT_LIMIT,
                    -2 * COORD_LIMIT <= dx <= 2 * COORD_LIMIT,
                    -2 * COORD_LIMIT <= dy <= 2 * COORD_LIMIT,
            ;
        }
        Point {
            x: rdiv64(self.m00 * dx + self.m01 * dy, SCALE),
            y: rdiv64(self.m10 * dx + self.m11 * dy, SCALE),
        }
    }

    /// Transform a point from camera space back to world space.
    pub fn to_world_space(&self, point: Point) -> (r: Point)
        requires
            self.wf(),
            point.in_bounds(),
        ensures
            r.x == spec_to_world_x(*self, point),
            r.y == spec_to_world_y(*self, point),
    {
        let det: i64 = self.det();
        proof {
            assert(-400_000_000_000_000i64 <= self.m11 * point.x <= 400_000_000_000_000i64
                && -400_000_000_000_000i64 <= self.m01 * point.y <= 400_000_000_000_000i64
                && -400_000_000_000_000i64 <= self.m00 * point.y <= 400_000_000_000_000i64
                && -400_000_000_000_000i64 <= self.m10 * point.x <= 400_000_000_000_000i64)
                by (nonlinear_arith)
                requires
                    -MAT_LIMIT <= self.m00 <= MAT_LIMIT,
                    -MAT_LIMIT <= self.m01 <= MAT_LIMIT,
                    -MAT_LIMIT <= self.m10 <= MAT_LIMIT,
                    -MAT_LIMIT <= self.m11 <= MAT_LIMIT,
                    point.in_bounds(),
            ;
        }
        let nx: i64 = self.m11 * point.x - self.m01 * point.y;
        let ny: i64 = self.m00 * point.y - self.m10 * point.x;
        let wx = rdiv64(SCALE * nx, det);
        let wy = rdiv64(SCALE * ny, det);
        proof {
            crate::num::lemma_rdiv_magnitude(SCALE as int * nx, det as int);
            crate::num::lemma_rdiv_magnitude(SCALE as int * ny, det as int);
        }
        Point { x: wx + self.tx, y: wy + self.ty }
    }

    /// The determinant of the camera matrix.
    fn det(&self) -> (d: i64)
        requires
            self.wf(),
        ensures
            d == spec_det(*self),
            1 <= d <= 3_200_000_000_000_000i64,
    {
        proof {
            assert(-1_600_000_000_000_000i64 <= self.m00 * self.m11 <= 1_600_000_000_000_000i64
                && -1_600_000_000_000_000i64 <= self.m01 * self.m10 <= 1_600_000_000_000_000i64)
                by (nonlinear_arith)
                requires
                    -MAT_LIMIT <= self.m00 <= MAT_LIMIT,
                    -MAT_LIMIT <= self.m01 <= MAT_LIMIT,
                    -MAT_LIMIT <= self.m10 <= MAT_LIMIT,
                    -MAT_LIMIT <= self.m11 <= MAT_LIMIT,
            ;
        }
        self.m00 * self.m11 - self.m01 * self.m10
    }

    /// Move the camera by a delta, in world units: the translation becomes
    /// `t + delta`. A delta that would push the translation out of the
    /// representable window is rejected and leaves the camera unchanged.
    pub fn move_camera(&mut self, delta: Point)
        requires
            old(self).wf(),
            delta.in_bounds(),
        ensures
            final(self).wf(),
            final(self).shapes@ == old(self).shapes@,
            ({
                let ntx = old(self).tx + delta.x;
                let nty = old(self).ty + delta.y;
                if -COORD_LIMIT <= ntx <= COORD_LIMIT && -COORD_LIMIT <= nty <= COORD_LIMIT {
                    *final(self) == (Canvas { tx: ntx as i64, ty: nty as i64, ..*old(self) })
                } else {
                    *final(self) == *old(self)
                }
            }),
    {
        let ntx: i64 = self.tx + delta.x;
        let nty: i64 = self.ty + delta.y;
        if -COORD_LIMIT <= ntx && ntx <= COORD_LIMIT && -COORD_LIMIT <= nty && nty <= COORD_LIMIT {
            self.tx = ntx;
            self.ty = nty;
        }
    }

    /// Rotate the camera counter-clockwise by an angle in raw radians: the
    /// rotation matrix of the angle is composed before the existing camera
    /// matrix. A candidate matrix with an entry out of range, or whose
    /// determinant is no longer positive, is rejected and leaves the camera
    /// unchanged.
    pub fn rotate_camera(&mut self, radians: i64)
        requires
            old(self).wf(),
            -ANGLE_LIMIT <= radians <= ANGLE_LIMIT,
        ensures
            final(self).wf(),
            final(self).shapes@ == old(self).shapes@,
            ({
                let e = spec_rotate_mat(*old(self), radians as int);
                if mat_in_range(e) {
                    *final(self) == spec_with_mat(*old(self), e)
                } else {
                    *final(self) == *old(self)
                }
            }),
    {
        let (cs, sn) = unit_vec(radians);
        proof {
            lemma_mat_mul_bounds(cs as int, sn as int, self.m00 as int, self.m01 as int,
                self.m10 as int, self.m11 as int);
        }
        let e00 = rdiv64(cs * self.m00 - sn * self.m10, SCALE);
        let e01 = rdiv64(cs * self.m01 - sn * self.m11, SCALE);
        let e10 = rdiv64(sn * self.m00 + cs * self.m10, SCALE);
        let e11 = rdiv64(sn * self.m01 + cs * self.m11, SCALE);
        self.try_set_mat(e00, e01, e10, e11);
    }

    /// Zoom the camera by a positive factor: every matrix entry and the
    /// stored zoom are scaled by it. A candidate with an entry or the zoom
    /// out of range, or a determinant no longer positive, is rejected and
    /// leaves the camera unchanged.
    pub fn zoom_camera(&mut self, factor: i64)
        requires
            old(self).wf(),
            1 <= factor <= MAT_LIMIT,
        ensures
            final(self).wf(),
            final(self).shapes@ == old(self).shapes@,
            ({
                let e = spec_zoom_mat(*old(self), factor as int);
                let nz = rdiv(old(self).zoom * factor, SCALE as int);
                if mat_in_range(e) && 1 <= nz <= MAT_LIMIT {
                    *final(self) == (Canvas { zoom: nz as i64, ..spec_with_mat(*old(self), e) })
                } else {
                    *final(self) == *old(self)
                }
            }),
    {
        proof {
            lemma_scale_mul_bounds(factor as int, self.m00 as int, self.m01 as int,
                self.m10 as int, self.m11 as int, self.zoom as int);
        }
        let e00 = rdiv64(self.m00 * factor, SCALE);
        let e01 = rdiv64(self.m01 * factor, SCALE);
        let e10 = rdiv64(self.m10 * factor, SCALE);
        let e11 = rdiv64(self.m11 * factor, SCALE);
        let nz = rdiv64(self.zoom * factor, SCALE);
        if 1 <= nz && nz <= MAT_LIMIT {
            let committed = self.try_set_mat(e00, e01, e10, e11);
            if committed {
                self.zoom = nz;
            }
        }
    }

    /// Install a candidate matrix if it is in range and invertible;
    /// otherwise leave the camera unchanged. Returns whether it committed.
    fn try_set_mat(&mut self, e00: i64, e01: i64, e10: i64, e11: i64) -> (committed: bool)
        requires
            old(self).wf(),
        ensures
            final(self).wf(),
            final(self).shapes@ == old(self).shapes@,
            committed == mat_in_range((e00 as int, e01 as int, e10 as int, e11 as int)),
            if committed {
                *final(self) == spec_with_mat(
                    *old(self),
                    (e00 as int, e01 as int, e10 as int, e11 as int),
                )
            } else {
                *final(self) == *old(self)
            },
    {
        if -MAT_LIMIT <= e00 && e00 <= MAT_LIMIT && -MAT_LIMIT <= e01 && e01 <= MAT_LIMIT
            && -MAT_LIMIT <= e10 && e10 <= MAT_LIMIT && -MAT_LIMIT <= e11 && e11 <= MAT_LIMIT {
            proof {
                assert(-1_600_000_000_000_000i64 <= e00 * e11 <= 1_600_000_000_000_000i64
                    && -1_600_000_000_000_000i64 <= e01 * e10 <= 1_600_000_000_000_000i64)
                    by (nonlinear_arith)
                    requires
                        -MAT_LIMIT <= e00 <= MAT_LIMIT,
                        -MAT_LIMIT <= e01 <= MAT_LIMIT,
                        -MAT_LIMIT <= e10 <= MAT_LIMIT,
                        -MAT_LIMIT <= e11 <= MAT_LIMIT,
                ;
            }
            let d: i64 = e00 * e11 - e01 * e10;
            if d >= 1 {
                self.m00 = e00;
                self.m01 = e01;
                self.m10 = e10;
                self.m11 = e11;
                return true;
            }
        }
        false
    }
}

/// Adjacent duplicates removed; every kept point occurs in the input.
fn dedup_points(pts: &Vec<Point>) -> (out: Vec<Point>)
    ensures
        out@ == spec_dedup(pts@),
        forall|j: int| 0 <= j < out@.len() ==> pts@.contains(#[trigger] out@[j]),
{
    let mut out: Vec<Point> = Vec::new();
    let mut i: usize = 0;
    while i < pts.len()
        invariant
            i <= pts@.len(),
            out@ == spec_dedup(pts@.take(i as int)),
            forall|j: int| 0 <= j < out@.len() ==> pts@.contains(#[trigger] out@[j]),
        decreases pts@.len() - i,
    {
        let p = pts[i];
        let keep = if i == 0 {
            true
        } else {
            p != pts[i - 1]
        };
        if keep {
            out.push(p);
            proof {
                assert(pts@[i as int] == p);
            }
        }
        i += 1;
        proof {
            assert(pts@.take(i as int).drop_last() =~= pts@.take(i as int - 1));
            if i >= 2 {
                assert(pts@.take(i as int)[i - 1] == pts@[i - 1]);
                assert(pts@.take(i as int)[i - 2] == pts@[i - 2]);
            }
        }
    }
    proof {
        assert(pts@.take(pts@.len() as int) =~= pts@);
    }
    out
}

/// The point clamped into the window the camera accepts.
pub open spec fn spec_clamp_pt(p: Point) -> Point {
    Point {
        x: clamp_spec(p.x as int, -COORD_LIMIT as int, COORD_LIMIT as int) as i64,
        y: clamp_spec(p.y as int, -COORD_LIMIT as int, COORD_LIMIT as int) as i64,
    }
}

/// The point clamped into the window the camera accepts.
pub fn clamp_pt(p: Point) -> (r: Point)
    ensures
        r == spec_clamp_pt(p),
        r.in_bounds(),
{
    Point {
        x: clamp64(p.x, -COORD_LIMIT, COORD_LIMIT),
        y: clamp64(p.y, -COORD_LIMIT, COORD_LIMIT),
    }
}

/// The camera-space position a renderer is handed for a stored world
/// point: the point clamped into the representable window, then mapped
/// through the camera.
pub open spec fn spec_render_pt(c: Canvas, p: Point) -> Point {
    spec_to_camera_pt(c, spec_clamp_pt(p))
}

/// The stroke a renderer is handed: its screen-space width clamped to the
/// representable range and scaled by the camera zoom.
pub open spec fn spec_render_stroke(c: Canvas, s: Stroke) -> Stroke {
    Stroke {
        width: rdiv(
            clamp_spec(s.width as int, 0, COORD_LIMIT as int) * c.zoom,
            SCALE as int,
        ) as i64,
        ..s
    }
}

/// The optional stroke a renderer is handed.
pub open spec fn spec_render_stroke_opt(c: Canvas, s: Option<Stroke>) -> Option<Stroke> {
    match s {
        Some(s) => Some(spec_render_stroke(c, s)),
        None => None,
    }
}

impl Canvas {
    /// Draw a shape onto the canvas, projected from the camera: the points
    /// are given in camera space, adjacent duplicates are collapsed, and
    /// unless one point or less remains the deduplicated points are
    /// converted to world space and stored. The stroke width is stored as
    /// given (it is a screen-space width).
    pub fn draw_shape(&mut self, points: Vec<Point>, stroke: Option<Stroke>, fill: Option<Color>)
        requires
            old(self).wf(),
            forall|i: int| 0 <= i < points@.len() ==> (#[trigger] points@[i]).in_bounds(),
        ensures
            final(self).wf(),
            camera_eq(*old(self), *final(self)),
            spec_world_shape_appended(*old(self), *final(self), points@, stroke, fill),
    {
        let ded = dedup_points(&points);
        if ded.len() <= 1 {
            return ;
        }
        let ghost cam = *self;
        let mut world: Vec<Point> = Vec::new();
        let mut i: usize = 0;
        while i < ded.len()
            invariant
                *self == cam,
                cam.wf(),
                i <= ded@.len(),
                world@.len() == i,
                forall|i: int| 0 <= i < points@.len() ==> (#[trigger] points@[i]).in_bounds(),
                forall|j: int| 0 <= j < ded@.len() ==> points@.contains(#[trigger] ded@[j]),
                forall|j: int|
                    0 <= j < i ==> #[trigger] world@[j] == spec_to_world_pt(cam, ded@[j]),
            decreases ded@.len() - i,
        {
            let q = ded[i];
            proof {
                let k = choose|k: int| 0 <= k < points@.len() && points@[k] == q;
                assert(points@[k].in_bounds());
            }
            let w = self.to_world_space(q);
            world.push(w);
            i += 1;
        }
        proof {
            assert(world@ =~= ded@.map_values(|q: Point| spec_to_world_pt(cam, q)));
        }
        self.shapes.push(Shape { points: world, stroke, fill });
    }

    /// Draw a shape directly onto the canvas: the points are stored exactly
    /// as given, with no space conversion and no deduplication. A shape
    /// with one point or less is dropped.
    pub fn draw_shape_absolute(
        &mut self,
        points: Vec<Point>,
        stroke: Option<Stroke>,
        fill: Option<Color>,
    )
        requires
            old(self).wf(),
        ensures
            final(self).wf(),
            camera_eq(*old(self), *final(self)),
            spec_absolute_shape_appended(*old(self), *final(self), points@, stroke, fill),
    {
        if points.len() <= 1 {
            return ;
        }
        self.shapes.push(Shape { points, stroke, fill });
    }

    /// Remove every shape from the canvas; the camera is untouched.
    pub fn clear(&mut self)
        requires
            old(self).wf(),
        ensures
            final(self).wf(),
            camera_eq(*old(self), *final(self)),
            final(self).shapes@.len() == 0,
    {
        self.shapes = Vec::new();
    }

    /// Remove the most recently drawn shape, if there is one; the camera
    /// is untouched.
    pub fn undo(&mut self)
        requires
            old(self).wf(),
        ensures
            final(self).wf(),
            camera_eq(*old(self), *final(self)),
            old(self).shapes@.len() == 0 ==> final(self).shapes@ == old(self).shapes@,
            old(self).shapes@.len() > 0 ==> final(self).shapes@ == old(self).shapes@.drop_last(),
    {
        if self.shapes.len() > 0 {
            let _ = self.shapes.pop();
        }
    }

    /// Consume the canvas and return its shape list.
    pub fn to_raw(self) -> (r: Vec<Shape>)
        ensures
            r == self.shapes,
    {
        self.shapes
    }

    /// All shapes drawn so far, in world space.
    pub fn as_raw(&self) -> (r: &[Shape])
        ensures
            r@ == self.shapes@,
    {
        self.shapes.as_slice()
    }

    /// Mutable access to the shape list, for callers that bypass the
    /// camera pipeline; the camera is untouched.
    pub fn as_raw_mut(&mut self) -> (r: &mut Vec<Shape>)
        ensures
            *r == old(self).shapes,
            *final(self) == (Canvas { shapes: *final(r), ..*old(self) }),
    {
        &mut self.shapes
    }

    /// The flattening resolution used for circles and curves.
    pub fn points_per_unit(&self) -> (r: usize)
        ensures
            r == self.points_per_unit,
    {
        self.points_per_unit
    }

    /// Change the flattening resolution used for circles and curves.
    pub fn set_points_per_unit(&mut self, points_per_unit: usize)
        requires
            old(self).wf(),
            points_per_unit <= PPU_LIMIT,
        ensures
            final(self).wf(),
            *final(self) == (Canvas { points_per_unit, ..*old(self) }),
    {
        self.points_per_unit = points_per_unit;
    }

    /// The shape as a renderer sees it: every point clamped into the
    /// representable window and mapped to camera space, and the stroke
    /// width scaled by the camera zoom.
    pub fn shape_to_camera(&self, shape: &Shape) -> (t: Shape)
        requires
            self.wf(),
        ensures
            t.points@.len() == shape.points@.len(),
            forall|i: int|
                0 <= i < t.points@.len() ==> #[trigger] t.points@[i] == spec_render_pt(
                    *self,
                    shape.points@[i],
                ),
            t.fill == shape.fill,
            t.stroke == spec_render_stroke_opt(*self, shape.stroke),
    {
        let mut pts: Vec<Point> = Vec::new();
        let mut i: usize = 0;
        while i < shape.points.len()
            invariant
                self.wf(),
                i <= shape.points@.len(),
                pts@.len() == i,
                forall|j: int|
                    0 <= j < i ==> #[trigger] pts@[j] == spec_render_pt(
                        *self,
                        shape.points@[j],
                    ),
            decreases shape.points@.len() - i,
        {
            let p = shape.points[i];
            let cl = Point {
                x: clamp64(p.x, -COORD_LIMIT, COORD_LIMIT),
                y: clamp64(p.y, -COORD_LIMIT, COORD_LIMIT),
            };
            pts.push(self.to_camera_space(cl));
            i += 1;
        }
        let stroke = match &shape.stroke {
            Some(s) => {
                let w = clamp64(s.width, 0, COORD_LIMIT);
                Some(Stroke { color: s.color, width: fmul(w, self.zoom), line_end: s.line_end })
            },
            None => None,
        };
        Shape { points: pts, stroke, fill: shape.fill }
    }

    /// Render the canvas: every stored shape is converted to camera space
    /// (see [`Canvas::shape_to_camera`]) and handed to the renderer in
    /// drawing order, and the renderer is then consumed to produce its
    /// output.
    pub fn render<R: Renderer>(&self, renderer: R) -> R::Output
        requires
            self.wf(),
    {
        let mut r = renderer;
        let mut i: usize = 0;
        while i < self.shapes.len()
            invariant
                self.wf(),
                i <= self.shapes@.len(),
            decreases self.shapes@.len() - i,
        {
            let t = self.shape_to_camera(&self.shapes[i]);
            r.render(&t);
            i += 1;
        }
        r.finalize()
    }
}

/// The corner sequence of an axis-aligned rectangle, closed back onto its
/// first corner.
pub open spec fn spec_rect_points(top_left: Point, bottom_right: Point) -> Seq<Point> {
    seq![
        top_left,
        Point { x: bottom_right.x, y: top_left.y },
        bottom_right,
        Point { x: top_left.x, y: bottom_right.y },
        top_left,
    ]
}

/// The side count a circle is flattened to: its circumference times the
/// resolution, capped at the polygon generator's limit.
pub open spec fn spec_circle_sides(ppu: int, radius: int) -> int {
    let raw = (TAU as int * radius * ppu) / (SCALE as int * SCALE as int);
    if raw > 1_000_000 {
        1_000_000int
    } else {
        raw
    }
}

impl Canvas {
    /// Draw an axis-aligned rectangle, projected from the camera.
    pub fn draw_rect(
        &mut self,
        top_left: Point,
        bottom_right: Point,
        stroke: Option<Stroke>,
        fill: Option<Color>,
    )
        requires
            old(self).wf(),
            top_left.in_bounds(),
            bottom_right.in_bounds(),
        ensures
            final(self).wf(),
            camera_eq(*old(self), *final(self)),
            spec_world_shape_appended(
                *old(self),
                *final(self),
                spec_rect_points(top_left, bottom_right),
                stroke,
                fill,
            ),
    {
        let pts = vec![
            top_left,
            Point { x: bottom_right.x, y: top_left.y },
            bottom_right,
            Point { x: top_left.x, y: bottom_right.y },
            top_left,
        ];
        proof {
            assert(pts@ =~= spec_rect_points(top_left, bottom_right));
        }
        self.draw_shape(pts, stroke, fill);
    }

    /// Draw an axis-aligned rectangle directly onto the canvas.
    pub fn draw_rect_absolute(
        &mut self,
        top_left: Point,
        bottom_right: Point,
        stroke: Option<Stroke>,
        fill: Option<Color>,
    )
        requires
            old(self).wf(),
        ensures
            final(self).wf(),
            camera_eq(*old(self), *final(self)),
            spec_absolute_shape_appended(
                *old(self),
                *final(self),
                spec_rect_points(top_left, bottom_right),
                stroke,
                fill,
            ),
    {
        let pts = vec![
            top_left,
            Point { x: bottom_right.x, y: top_left.y },
            bottom_right,
            Point { x: top_left.x, y: bottom_right.y },
            top_left,
        ];
        proof {
            assert(pts@ =~= spec_rect_points(top_left, bottom_right));
        }
        self.draw_shape_absolute(pts, stroke, fill);
    }

    /// Draw a triangle, projected from the camera.
    pub fn draw_triangle(
        &mut self,
        p0: Point,
        p1: Point,
        p2: Point,
        stroke: Option<Stroke>,
        fill: Option<Color>,
    )
        requires
            old(self).wf(),
            p0.in_bounds(),
            p1.in_bounds(),
            p2.in_bounds(),
        ensures
            final(self).wf(),
            camera_eq(*old(self), *final(self)),
            spec_world_shape_appended(*old(self), *final(self), seq![p0, p1, p2], stroke, fill),
    {
        let pts = vec![p0, p1, p2];
        proof {
            assert(pts@ =~= seq![p0, p1, p2]);
        }
        self.draw_shape(pts, stroke, fill);
    }

    /// Draw a triangle directly onto the canvas.
    pub fn draw_triangle_absolute(
        &mut self,
        p0: Point,
        p1: Point,
        p2: Point,
        stroke: Option<Stroke>,
        fill: Option<Color>,
    )
        requires
            old(self).wf(),
        ensures
            final(self).wf(),
            camera_eq(*old(self), *final(self)),
            spec_absolute_shape_appended(*old(self), *final(self), seq![p0, p1, p2], stroke, fill),
    {
        let pts = vec![p0, p1, p2];
        proof {
            assert(pts@ =~= seq![p0, p1, p2]);
        }
        self.draw_shape_absolute(pts, stroke, fill);
    }

    /// Draw a quadrilateral, projected from the camera.
    pub fn draw_quad(
        &mut self,
        p0: Point,
        p1: Point,
        p2: Point,
        p3: Point,
        stroke: Option<Stroke>,
        fill: Option<Color>,
    )
        requires
            old(self).wf(),
            p0.in_bounds(),
            p1.in_bounds(),
            p2.in_bounds(),
            p3.in_bounds(),
        ensures
            final(self).wf(),
            camera_eq(*old(self), *final(self)),
            spec_world_shape_appended(
                *old(self),
                *final(self),
                seq![p0, p1, p2, p3],
                stroke,
                fill,
            ),
    {
        let pts = vec![p0, p1, p2, p3];
        proof {
            assert(pts@ =~= seq![p0, p1, p2, p3]);
        }
        self.draw_shape(pts, stroke, fill);
    }

    /// Draw a quadrilateral directly onto the canvas.
    pub fn draw_quad_absolute(
        &mut self,
        p0: Point,
        p1: Point,
        p2: Point,
        p3: Point,
        stroke: Option<Stroke>,
        fill: Option<Color>,
    )
        requires
            old(self).wf(),
        ensures
            final(self).wf(),
            camera_eq(*old(self), *final(self)),
            spec_absolute_shape_appended(
                *old(self),
                *final(self),
                seq![p0, p1, p2, p3],
                stroke,
                fill,
            ),
    {
        let pts = vec![p0, p1, p2, p3];
        proof {
            assert(pts@ =~= seq![p0, p1, p2, p3]);
        }
        self.draw_shape_absolute(pts, stroke, fill);
    }

    /// Draw a straight line, projected from the camera.
    pub fn draw_line(&mut self, p0: Point, p1: Point, stroke: Option<Stroke>, fill: Option<Color>)
        requires
            old(self).wf(),
            p0.in_bounds(),
            p1.in_bounds(),
        ensures
            final(self).wf(),
            camera_eq(*old(self), *final(self)),
            spec_world_shape_appended(*old(self), *final(self), seq![p0, p1], stroke, fill),
    {
        let pts = vec![p0, p1];
        proof {
            assert(pts@ =~= seq![p0, p1]);
        }
        self.draw_shape(pts, stroke, fill);
    }

    /// Draw a straight line directly onto the canvas.
    pub fn draw_line_absolute(
        &mut self,
        p0: Point,
        p1: Point,
        stroke: Option<Stroke>,
        fill: Option<Color>,
    )
        requires
            old(self).wf(),
        ensures
            final(self).wf(),
            camera_eq(*old(self), *final(self)),
            spec_absolute_shape_appended(*old(self), *final(self), seq![p0, p1], stroke, fill),
    {
        let pts = vec![p0, p1];
        proof {
            assert(pts@ =~= seq![p0, p1]);
        }
        self.draw_shape_absolute(pts, stroke, fill);
    }

    /// Draw a stroked line of several segments, projected from the camera.
    pub fn draw_polyline(&mut self, points: Vec<Point>, stroke: Stroke)
        requires
            old(self).wf(),
            forall|i: int| 0 <= i < points@.len() ==> (#[trigger] points@[i]).in_bounds(),
        ensures
            final(self).wf(),
            camera_eq(*old(self), *final(self)),
            spec_world_shape_appended(*old(self), *final(self), points@, Some(stroke), None),
    {
        self.draw_shape(points, Some(stroke), None);
    }

    /// Draw a stroked line of several segments directly onto the canvas.
    pub fn draw_polyline_absolute(&mut self, points: Vec<Point>, stroke: Stroke)
        requires
            old(self).wf(),
        ensures
            final(self).wf(),
            camera_eq(*old(self), *final(self)),
            spec_absolute_shape_appended(*old(self), *final(self), points@, Some(stroke), None),
    {
        self.draw_shape_absolute(points, Some(stroke), None);
    }

    /// Draw a filled shape of several sides, projected from the camera.
    pub fn draw_polygon(&mut self, points: Vec<Point>, fill: Color)
        requires
            old(self).wf(),
            forall|i: int| 0 <= i < points@.len() ==> (#[trigger] points@[i]).in_bounds(),
        ensures
            final(self).wf(),
            camera_eq(*old(self), *final(self)),
            spec_world_shape_appended(*old(self), *final(self), points@, None, Some(fill)),
    {
        self.draw_shape(points, None, Some(fill));
    }

    /// Draw a filled shape of several sides directly onto the canvas.
    pub fn draw_polygon_absolute(&mut self, points: Vec<Point>, fill: Color)
        requires
            old(self).wf(),
        ensures
            final(self).wf(),
            camera_eq(*old(self), *final(self)),
            spec_absolute_shape_appended(*old(self), *final(self), points@, None, Some(fill)),
    {
        self.draw_shape_absolute(points, None, Some(fill));
    }

    /// Draw a regular polygon, projected from the camera: `sides` equally
    /// spaced vertices around the center, starting at `rotation` raw
    /// radians, closed back onto the first vertex. At least three sides are
    /// required.
    pub fn draw_regular_polygon(
        &mut self,
        center: Point,
        sides: usize,
        radius: i64,
        rotation: i64,
        stroke: Option<Stroke>,
        fill: Option<Color>,
    )
        requires
            old(self).wf(),
            3 <= sides <= 1_000_000,
            0 <= radius,
            -COORD_LIMIT <= center.x - radius,
            center.x + radius <= COORD_LIMIT,
            -COORD_LIMIT <= center.y - radius,
            center.y + radius <= COORD_LIMIT,
            -ROT_LIMIT <= rotation <= ROT_LIMIT,
        ensures
            final(self).wf(),
            camera_eq(*old(self), *final(self)),
            spec_world_shape_appended(
                *old(self),
                *final(self),
                spec_regular_polygon_points(center, sides as int, radius as int, rotation as int),
                stroke,
                fill,
            ),
    {
        let pts = regular_polygon_points(center, sides, radius, rotation);
        self.draw_shape(pts, stroke, fill);
    }

    /// Draw a regular polygon directly onto the canvas.
    pub fn draw_regular_polygon_absolute(
        &mut self,
        center: Point,
        sides: usize,
        radius: i64,
        rotation: i64,
        stroke: Option<Stroke>,
        fill: Option<Color>,
    )
        requires
            old(self).wf(),
            3 <= sides <= 1_000_000,
            0 <= radius,
            -COORD_LIMIT <= center.x - radius,
            center.x + radius <= COORD_LIMIT,
            -COORD_LIMIT <= center.y - radius,
            center.y + radius <= COORD_LIMIT,
            -ROT_LIMIT <= rotation <= ROT_LIMIT,
        ensures
            final(self).wf(),
            camera_eq(*old(self), *final(self)),
            spec_absolute_shape_appended(
                *old(self),
                *final(self),
                spec_regular_polygon_points(center, sides as int, radius as int, rotation as int),
                stroke,
                fill,
            ),
    {
        let pts = regular_polygon_points(center, sides, radius, rotation);
        self.draw_shape_absolute(pts, stroke, fill);
    }

    /// The side count a circle of the given radius is flattened to at the
    /// current resolution.
    fn circle_sides(&self, radius: i64) -> (sides: usize)
        requires
            self.wf(),
            0 <= radius <= COORD_LIMIT,
        ensures
            sides == spec_circle_sides(self.points_per_unit as int, radius as int),
            sides <= 1_000_000,
    {
        proof {
            assert(TAU as int * radius as int <= 700_000_000_000i64) by (nonlinear_arith)
                requires
                    0 <= radius <= COORD_LIMIT,
            ;
        }
        let a: u64 = (TAU as u64) * (radius as u64);
        proof {
            assert(a as int * self.points_per_unit as int <= 700_000_000_000_000_000i64)
                by (nonlinear_arith)
                requires
                    0 <= a <= 700_000_000_000i64,
                    self.points_per_unit <= PPU_LIMIT,
            ;
        }
        let b: u64 = a * (self.points_per_unit as u64);
        proof {
            assert(SCALE as int * SCALE as int == 100_000_000);
        }
        let s: u64 = b / 100_000_000u64;
        if s > 1_000_000 {
            1_000_000
        } else {
            s as usize
        }
    }

    /// Draw a circle, projected from the camera, as a regular polygon whose
    /// side count follows from the circumference and the resolution. A
    /// circle too small to yield more than two sides is skipped entirely.
    pub fn draw_circle(
        &mut self,
        center: Point,
        radius: i64,
        stroke: Option<Stroke>,
        fill: Option<Color>,
    )
        requires
            old(self).wf(),
            0 <= radius,
            -COORD_LIMIT <= center.x - radius,
            center.x + radius <= COORD_LIMIT,
            -COORD_LIMIT <= center.y - radius,
            center.y + radius <= COORD_LIMIT,
        ensures
            final(self).wf(),
            camera_eq(*old(self), *final(self)),
            ({
                let sides = spec_circle_sides(old(self).points_per_unit as int, radius as int);
                if sides > 2 {
                    spec_world_shape_appended(
                        *old(self),
                        *final(self),
                        spec_regular_polygon_points(center, sides, radius as int, 0),
                        stroke,
                        fill,
                    )
                } else {
                    *final(self) == *old(self)
                }
            }),
    {
        let sides = self.circle_sides(radius);
        if sides > 2 {
            self.draw_regular_polygon(center, sides, radius, 0, stroke, fill);
        }
    }

    /// Draw a circle directly onto the canvas, as a regular polygon whose
    /// side count follows from the circumference and the resolution. A
    /// circle too small to yield more than two sides is skipped entirely.
    pub fn draw_circle_absolute(
        &mut self,
        center: Point,
        radius: i64,
        stroke: Option<Stroke>,
        fill: Option<Color>,
    )
        requires
            old(self).wf(),
            0 <= radius,
            -COORD_LIMIT <= center.x - radius,
            center.x + radius <= COORD_LIMIT,
            -COORD_LIMIT <= center.y - radius,
            center.y + radius <= COORD_LIMIT,
        ensures
            final(self).wf(),
            camera_eq(*old(self), *final(self)),
            ({
                let sides = spec_circle_sides(old(self).points_per_unit as int, radius as int);
                if sides > 2 {
                    spec_absolute_shape_appended(
                        *old(self),
                        *final(self),
                        spec_regular_polygon_points(center, sides, radius as int, 0),
                        stroke,
                        fill,
                    )
                } else {
                    *final(self) == *old(self)
                }
            }),
    {
        let sides = self.circle_sides(radius);
        if sides > 2 {
            self.draw_regular_polygon_absolute(center, sides, radius, 0, stroke, fill);
        }
    }
}

impl Canvas {
    /// Create and draw a path, projected from the camera: the closure
    /// receives a fresh [`PathBuilder`] with its pen at the origin, chains
    /// path operations on it, and the finished path is drawn through the
    /// world-space entry point (see [`PathBuilder::build`]).
    pub fn draw_path<F: FnOnce(PathBuilder) -> PathBuilder>(
        &mut self,
        stroke: Option<Stroke>,
        fill: Option<Color>,
        f: F,
    )
        requires
            old(self).wf(),
            forall|b: PathBuilder| b.wf() ==> #[trigger] call_requires(f, (b,)),
            forall|b: PathBuilder, r: PathBuilder|
                #[trigger] call_ensures(f, (b,), r) ==> r.wf(),
        ensures
            final(self).wf(),
            camera_eq(*old(self), *final(self)),
            exists|b0: PathBuilder, b1: PathBuilder|
                {
                    &&& b0.wf()
                    &&& b0.is_fresh(old(self).points_per_unit as int)
                    &&& #[trigger] call_ensures(f, (b0,), b1)
                    &&& spec_build_effect(*old(self), *final(self), b1, stroke, fill)
                },
    {
        let b0 = PathBuilder::new(self.points_per_unit);
        let b1 = f(b0);
        b1.build(stroke, fill, self);
    }

    /// Create and draw a path directly onto the canvas: as
    /// [`Canvas::draw_path`], but the finished path is drawn through the
    /// absolute entry point.
    pub fn draw_path_absolute<F: FnOnce(PathBuilder) -> PathBuilder>(
        &mut self,
        stroke: Option<Stroke>,
        fill: Option<Color>,
        f: F,
    )
        requires
            old(self).wf(),
            forall|b: PathBuilder| b.wf() ==> #[trigger] call_requires(f, (b,)),
            forall|b: PathBuilder, r: PathBuilder|
                #[trigger] call_ensures(f, (b,), r) ==> r.wf(),
        ensures
            final(self).wf(),
            camera_eq(*old(self), *final(self)),
            exists|b0: PathBuilder, b1: PathBuilder|
                {
                    &&& b0.wf()
                    &&& b0.is_fresh(old(self).points_per_unit as int)
                    &&& #[trigger] call_ensures(f, (b0,), b1)
                    &&& spec_build_effect_absolute(*old(self), *final(self), b1, stroke, fill)
                },
    {
        let b0 = PathBuilder::new(self.points_per_unit);
        let b1 = f(b0);
        b1.build_absolute(stroke, fill, self);
    }

    /// Draw a flattened quadratic bezier curve, projected from the camera.
    pub fn draw_quadratic_bezier(
        &mut self,
        start_point: Point,
        control_point: Point,
        end_point: Point,
        stroke: Option<Stroke>,
        fill: Option<Color>,
    )
        requires
            old(self).wf(),
            start_point.in_bounds(),
            control_point.in_bounds(),
            end_point.in_bounds(),
        ensures
            final(self).wf(),
            camera_eq(*old(self), *final(self)),
            spec_runs_build_effect(
                *old(self),
                *final(self),
                seq![
                    seq![start_point] + spec_quad_points(
                        start_point,
                        control_point,
                        end_point,
                        old(self).points_per_unit as int,
                    ),
                ],
                stroke,
                fill,
            ),
    {
        let b = PathBuilder::new(self.points_per_unit);
        let b = b.move_to(start_point);
        let b = b.quadratic_bezier_to(end_point, control_point);
        proof {
            assert(spec_builder_runs(b) =~= seq![
                seq![start_point] + spec_quad_points(
                    start_point,
                    control_point,
                    end_point,
                    self.points_per_unit as int,
                ),
            ]) by {
                assert(b.current_shape@ =~= seq![start_point] + spec_quad_points(
                    start_point,
                    control_point,
                    end_point,
                    self.points_per_unit as int,
                ));
            }
        }
        b.build(stroke, fill, self);
    }

    /// Draw a flattened quadratic bezier curve directly onto the canvas.
    pub fn draw_quadratic_bezier_absolute(
        &mut self,
        start_point: Point,
        control_point: Point,
        end_point: Point,
        stroke: Option<Stroke>,
        fill: Option<Color>,
    )
        requires
            old(self).wf(),
            start_point.in_bounds(),
            control_point.in_bounds(),
            end_point.in_bounds(),
        ensures
            final(self).wf(),
            camera_eq(*old(self), *final(self)),
            spec_runs_build_effect_absolute(
                *old(self),
                *final(self),
                seq![
                    seq![start_point] + spec_quad_points(
                        start_point,
                        control_point,
                        end_point,
                        old(self).points_per_unit as int,
                    ),
                ],
                stroke,
                fill,
            ),
    {
        let b = PathBuilder::new(self.points_per_unit);
        let b = b.move_to(start_point);
        let b = b.quadratic_bezier_to(end_point, control_point);
        proof {
            assert(spec_builder_runs(b) =~= seq![
                seq![start_point] + spec_quad_points(
                    start_point,
                    control_point,
                    end_point,
                    self.points_per_unit as int,
                ),
            ]) by {
                assert(b.current_shape@ =~= seq![start_point] + spec_quad_points(
                    start_point,
                    control_point,
                    end_point,
                    self.points_per_unit as int,
                ));
            }
        }
        b.build_absolute(stroke, fill, self);
    }

    /// Draw a flattened cubic bezier curve, projected from the camera.
    pub fn draw_cubic_bezier(
        &mut self,
        start_point: Point,
        control_point_0: Point,
        control_point_1: Point,
        end_point: Point,
        stroke: Option<Stroke>,
        fill: Option<Color>,
    )
        requires
            old(self).wf(),
            start_point.in_bounds(),
            control_point_0.in_bounds(),
            control_point_1.in_bounds(),
            end_point.in_bounds(),
        ensures
            final(self).wf(),
            camera_eq(*old(self), *final(self)),
            spec_runs_build_effect(
                *old(self),
                *final(self),
                seq![
                    seq![start_point] + spec_cubic_points(
                        start_point,
                        control_point_0,
                        control_point_1,
                        end_point,
                        old(self).points_per_unit as int,
                    ),
                ],
                stroke,
                fill,
            ),
    {
        let b = PathBuilder::new(self.points_per_unit);
        let b = b.move_to(start_point);
        let b = b.cubic_bezier_to(end_point, control_point_0, control_point_1);
        proof {
            assert(spec_builder_runs(b) =~= seq![
                seq![start_point] + spec_cubic_points(
                    start_point,
                    control_point_0,
                    control_point_1,
                    end_point,
                    self.points_per_unit as int,
                ),
            ]) by {
                assert(b.current_shape@ =~= seq![start_point] + spec_cubic_points(
                    start_point,
                    control_point_0,
                    control_point_1,
                    end_point,
                    self.points_per_unit as int,
                ));
            }
        }
        b.build(stroke, fill, self);
    }

    /// Draw a flattened cubic bezier curve directly onto the canvas.
    pub fn draw_cubic_bezier_absolute(
        &mut self,
        start_point: Point,
        control_point_0: Point,
        control_point_1: Point,
        end_point: Point,
        stroke: Option<Stroke>,
        fill: Option<Color>,
    )
        requires
            old(self).wf(),
            start_point.in_bounds(),
            control_point_0.in_bounds(),
            control_point_1.in_bounds(),
            end_point.in_bounds(),
        ensures
            final(self).wf(),
            camera_eq(*old(self), *final(self)),
            spec_runs_build_effect_absolute(
                *old(self),
                *final(self),
                seq![
                    seq![start_point] + spec_cubic_points(
                        start_point,
                        control_point_0,
                        control_point_1,
                        end_point,
                        old(self).points_per_unit as int,
                    ),
                ],
                stroke,
                fill,
            ),
    {
        let b = PathBuilder::new(self.points_per_unit);
        let b = b.move_to(start_point);
        let b = b.cubic_bezier_to(end_point, control_point_0, control_point_1);
        proof {
            assert(spec_builder_runs(b) =~= seq![
                seq![start_point] + spec_cubic_points(
                    start_point,
                    control_point_0,
                    control_point_1,
                    end_point,
                    self.points_per_unit as int,
                ),
            ]) by {
                assert(b.current_shape@ =~= seq![start_point] + spec_cubic_points(
                    start_point,
                    control_point_0,
                    control_point_1,
                    end_point,
                    self.points_per_unit as int,
                ));
            }
        }
        b.build_absolute(stroke, fill, self);
    }
}

impl Default for Canvas {
    /// A canvas with the default flattening resolution of 1000 points per
    /// unit, a fresh camera and no shapes.
    fn default() -> (c: Canvas)
        ensures
            c.wf(),
            c.is_fresh_camera(),
            c.points_per_unit == 1000,
            c.shapes@.len() == 0,
    {
        Canvas::new(1000)
    }
}

/// All four candidate entries are representable and the candidate matrix
/// has positive determinant.
pub open spec fn mat_in_range(e: (int, int, int, int)) -> bool {
    &&& -MAT_LIMIT <= e.0 <= MAT_LIMIT
    &&& -MAT_LIMIT <= e.1 <= MAT_LIMIT
    &&& -MAT_LIMIT <= e.2 <= MAT_LIMIT
    &&& -MAT_LIMIT <= e.3 <= MAT_LIMIT
    &&& e.0 * e.3 - e.1 * e.2 >= 1
}

/// The camera with its matrix replaced by the four candidate entries.
pub open spec fn spec_with_mat(c: Canvas, e: (int, int, int, int)) -> Canvas {
    Canvas { m00: e.0 as i64, m01: e.1 as i64, m10: e.2 as i64, m11: e.3 as i64, ..c }
}

/// The candidate matrix of a rotation: the rotation matrix of the angle
/// left-multiplied onto the camera matrix, each entry rounded to the grid.
pub open spec fn spec_rotate_mat(c: Canvas, a: int) -> (int, int, int, int) {
    let cs = spec_unit_vec(a).0;
    let sn = spec_unit_vec(a).1;
    (
        rdiv(cs * c.m00 - sn * c.m10, SCALE as int),
        rdiv(cs * c.m01 - sn * c.m11, SCALE as int),
        rdiv(sn * c.m00 + cs * c.m10, SCALE as int),
        rdiv(sn * c.m01 + cs * c.m11, SCALE as int),
    )
}

/// The candidate matrix of a zoom: every entry scaled by the factor and
/// rounded to the grid.
pub open spec fn spec_zoom_mat(c: Canvas, f: int) -> (int, int, int, int) {
    (
        rdiv(c.m00 * f, SCALE as int),
        rdiv(c.m01 * f, SCALE as int),
        rdiv(c.m10 * f, SCALE as int),
        rdiv(c.m11 * f, SCALE as int),
    )
}

proof fn lemma_mat_mul_bounds(cs: int, sn: int, m00: int, m01: int, m10: int, m11: int)
    requires
        -SCALE <= cs <= SCALE,
        -SCALE <= sn <= SCALE,
        -MAT_LIMIT <= m00 <= MAT_LIMIT,
        -MAT_LIMIT <= m01 <= MAT_LIMIT,
        -MAT_LIMIT <= m10 <= MAT_LIMIT,
        -MAT_LIMIT <= m11 <= MAT_LIMIT,
    ensures
        -400_000_000_000i64 <= cs * m00 <= 400_000_000_000i64,
        -400_000_000_000i64 <= cs * m01 <= 400_000_000_000i64,
        -400_000_000_000i64 <= cs * m10 <= 400_000_000_000i64,
        -400_000_000_000i64 <= cs * m11 <= 400_000_000_000i64,
        -400_000_000_000i64 <= sn * m00 <= 400_000_000_000i64,
        -400_000_000_000i64 <= sn * m01 <= 400_000_000_000i64,
        -400_000_000_000i64 <= sn * m10 <= 400_000_000_000i64,
        -400_000_000_000i64 <= sn * m11 <= 400_000_000_000i64,
{
    assert(-400_000_000_000i64 <= cs * m00 <= 400_000_000_000i64
        && -400_000_000_000i64 <= cs * m01 <= 400_000_000_000i64
        && -400_000_000_000i64 <= cs * m10 <= 400_000_000_000i64
        && -400_000_000_000i64 <= cs * m11 <= 400_000_000_000i64
        && -400_000_000_000i64 <= sn * m00 <= 400_000_000_000i64
        && -400_000_000_000i64 <= sn * m01 <= 400_000_000_000i64
        && -400_000_000_000i64 <= sn * m10 <= 400_000_000_000i64
        && -400_000_000_000i64 <= sn * m11 <= 400_000_000_000i64) by (nonlinear_arith)
        requires
            -SCALE <= cs <= SCALE,
            -SCALE <= sn <= SCALE,
            -MAT_LIMIT <= m00 <= MAT_LIMIT,
            -MAT_LIMIT <= m01 <= MAT_LIMIT,
            -MAT_LIMIT <= m10 <= MAT_LIMIT,
            -MAT_LIMIT <= m11 <= MAT_LIMIT,
    ;
}

proof fn lemma_scale_mul_bounds(f: int, m00: int, m01: int, m10: int, m11: int, zoom: int)
    requires
        1 <= f <= MAT_LIMIT,
        -MAT_LIMIT <= m00 <= MAT_LIMIT,
        -MAT_LIMIT <= m01 <= MAT_LIMIT,
        -MAT_LIMIT <= m10 <= MAT_LIMIT,
        -MAT_LIMIT <= m11 <= MAT_LIMIT,
        1 <= zoom <= MAT_LIMIT,
    ensures
        -1_600_000_000_000_000i64 <= m00 * f <= 1_600_000_000_000_000i64,
        -1_600_000_000_000_000i64 <= m01 * f <= 1_600_000_000_000_000i64,
        -1_600_000_000_000_000i64 <= m10 * f <= 1_600_000_000_000_000i64,
        -1_600_000_000_000_000i64 <= m11 * f <= 1_600_000_000_000_000i64,
        0 <= zoom * f <= 1_600_000_000_000_000i64,
{
    assert(-1_600_000_000_000_000i64 <= m00 * f <= 1_600_000_000_000_000i64
        && -1_600_000_000_000_000i64 <= m01 * f <= 1_600_000_000_000_000i64
        && -1_600_000_000_000_000i64 <= m10 * f <= 1_600_000_000_000_000i64
        && -1_600_000_000_000_000i64 <= m11 * f <= 1_600_000_000_000_000i64
        && 0 <= zoom * f <= 1_600_000_000_000_000i64) by (nonlinear_arith)
        requires
            1 <= f <= MAT_LIMIT,
            -MAT_LIMIT <= m00 <= MAT_LIMIT,
            -MAT_LIMIT <= m01 <= MAT_LIMIT,
            -MAT_LIMIT <= m10 <= MAT_LIMIT,
            -MAT_LIMIT <= m11 <= MAT_LIMIT,
            1 <= zoom <= MAT_LIMIT,
    ;
}

/// The exact form of the world/camera round trip: applying the adjugate of
/// the camera matrix to the unrounded camera coordinates of a world point
/// gives the determinant times the point's offset from the translation.
/// The executable maps realize this identity up to one rounding per
/// coordinate in each direction.
pub proof fn lemma_camera_round_trip_exact(c: Canvas, p: Point)
    ensures
        c.m11 * spec_cam_num_x(c, p) - c.m01 * spec_cam_num_y(c, p) == spec_det(c) * (p.x - c.tx),
        c.m00 * spec_cam_num_y(c, p) - c.m10 * spec_cam_num_x(c, p) == spec_det(c) * (p.y - c.ty),
{
    let u = p.x - c.tx;
    let v = p.y - c.ty;
    assert(c.m11 * (c.m00 * u + c.m01 * v) - c.m01 * (c.m10 * u + c.m11 * v) == (c.m00 * c.m11
        - c.m01 * c.m10) * u) by (nonlinear_arith);
    assert(c.m00 * (c.m10 * u + c.m11 * v) - c.m10 * (c.m00 * u + c.m01 * v) == (c.m00 * c.m11
        - c.m01 * c.m10) * v) by (nonlinear_arith);
}

/// The magnitude of a value.
pub open spec fn abs_spec(v: int) -> int {
    if v >= 0 {
        v
    } else {
        -v
    }
}

/// A camera row is tame: the determinant dominates the row's entries by
/// enough that one rounding of half a grid step cannot move the round
/// trip by more than a thousandth of a unit. Every camera whose
/// accumulated zoom is at least an eighth or so satisfies this.
pub open spec fn row_tame(e0: int, e1: int, det: int) -> bool {
    (abs_spec(e0) + abs_spec(e1)) * SCALE <= 18 * det
}

proof fn lemma_round_trip_coord(nrow: int, e0: int, e1: int, det: int, u: int, ex: int, ey: int)
    requires
        1 <= det,
        row_tame(e0, e1, det),
        -5000 <= ex <= 5000,
        -5000 <= ey <= 5000,
        nrow == det * u + e0 * ex + e1 * ey,
    ensures
        -10 <= rdiv(nrow, det) - u <= 10,
{
    let e = e0 * ex + e1 * ey;
    assert(-(9 * det) <= e <= 9 * det) by (nonlinear_arith)
        requires
            (abs_spec(e0) + abs_spec(e1)) * SCALE <= 18 * det,
            -5000 <= ex <= 5000,
            -5000 <= ey <= 5000,
            e == e0 * ex + e1 * ey,
            SCALE == 10000,
    ;
    crate::num::lemma_rdiv_bounds(nrow, det);
    let q = rdiv(nrow, det);
    let h = det / 2;
    assert(0 <= h && 2 * h <= det);
    assert(-10 <= q - u <= 10) by (nonlinear_arith)
        requires
            1 <= det,
            0 <= h,
            2 * h <= det,
            det * q <= nrow + h,
            nrow + h < det * (q + 1),
            nrow == det * u + e,
            -(9 * det) <= e <= 9 * det,
    ;
}

/// The executable round trip: for any well-formed camera whose rows are
/// tame (the determinant is not close to degenerate — any camera with an
/// accumulated zoom of an eighth of a unit or more qualifies), converting
/// a point to camera space and back lands within a thousandth of a unit
/// of where it started, on both axes.
pub proof fn lemma_camera_round_trip(c: Canvas, p: Point)
    requires
        c.wf(),
        p.in_bounds(),
        row_tame(c.m11 as int, c.m01 as int, spec_det(c)),
        row_tame(c.m00 as int, c.m10 as int, spec_det(c)),
    ensures
        -10 <= spec_to_world_x(c, spec_to_camera_pt(c, p)) - p.x <= 10,
        -10 <= spec_to_world_y(c, spec_to_camera_pt(c, p)) - p.y <= 10,
{
    let u = p.x - c.tx;
    let v = p.y - c.ty;
    let nx = spec_cam_num_x(c, p);
    let ny = spec_cam_num_y(c, p);
    let cx = spec_to_camera_x(c, p);
    let cy = spec_to_camera_y(c, p);
    assert(-1_600_000_000_000_000 <= nx <= 1_600_000_000_000_000 && -1_600_000_000_000_000 <= ny
        <= 1_600_000_000_000_000) by (nonlinear_arith)
        requires
            nx == c.m00 * (p.x - c.tx) + c.m01 * (p.y - c.ty),
            ny == c.m10 * (p.x - c.tx) + c.m11 * (p.y - c.ty),
            -MAT_LIMIT <= c.m00 <= MAT_LIMIT,
            -MAT_LIMIT <= c.m01 <= MAT_LIMIT,
            -MAT_LIMIT <= c.m10 <= MAT_LIMIT,
            -MAT_LIMIT <= c.m11 <= MAT_LIMIT,
            -2 * COORD_LIMIT <= p.x - c.tx <= 2 * COORD_LIMIT,
            -2 * COORD_LIMIT <= p.y - c.ty <= 2 * COORD_LIMIT,
    ;
    crate::num::lemma_rdiv_bounds(nx, SCALE as int);
    crate::num::lemma_rdiv_bounds(ny, SCALE as int);
    let ex = SCALE * cx - nx;
    let ey = SCALE * cy - ny;
    assert(-5000 <= ex <= 5000 && -5000 <= ey <= 5000);
    let q = spec_to_camera_pt(c, p);
    assert(q.x == cx && q.y == cy);
    lemma_camera_round_trip_exact(c, p);
    let det = spec_det(c);
    assert(SCALE as int * (c.m11 * q.x - c.m01 * q.y) == det * u + c.m11 * ex + (-c.m01) * ey)
        by (nonlinear_arith)
        requires
            q.x == cx,
            q.y == cy,
            ex == SCALE * cx - nx,
            ey == SCALE * cy - ny,
            c.m11 * nx - c.m01 * ny == det * u,
    ;
    assert(SCALE as int * (c.m00 * q.y - c.m10 * q.x) == det * v + c.m00 * ey + (-c.m10) * ex)
        by (nonlinear_arith)
        requires
            q.x == cx,
            q.y == cy,
            ex == SCALE * cx - nx,
            ey == SCALE * cy - ny,
            c.m00 * ny - c.m10 * nx == det * v,
    ;
    assert(row_tame(c.m11 as int, -c.m01 as int, det) && row_tame(c.m00 as int, -c.m10 as int, det));
    lemma_round_trip_coord(
        SCALE as int * (c.m11 * q.x - c.m01 * q.y),
        c.m11 as int,
        -c.m01 as int,
        det,
        u,
        ex,
        ey,
    );
    lemma_round_trip_coord(
        SCALE as int * (c.m00 * q.y - c.m10 * q.x),
        c.m00 as int,
        -c.m10 as int,
        det,
        v,
        ey,
        ex,
    );
}

/// A camera row is small: its entries total at most nine units. Every
/// camera whose accumulated zoom is six or less satisfies this. The
/// reverse round trip needs it: converting to world space rounds to the
/// world grid, and mapping back through the matrix multiplies that
/// rounding by the zoom, so at large zooms the camera-to-world-and-back
/// trip genuinely leaves the thousandth-of-a-unit tolerance on this grid.
pub open spec fn row_small(e0: int, e1: int) -> bool {
    abs_spec(e0) + abs_spec(e1) <= 9 * SCALE
}

proof fn lemma_reverse_coord(num: int, e0: int, e1: int, det: int, q0: int, ex: int, ey: int)
    requires
        1 <= det,
        row_small(e0, e1),
        -(det + 1) <= 2 * ex <= det,
        -(det + 1) <= 2 * ey <= det,
        det * num == SCALE * (det * q0) + e0 * ex + e1 * ey,
    ensures
        -10 <= rdiv(num, SCALE as int) - q0 <= 10,
{
    let e = e0 * ex + e1 * ey;
    assert(-(9 * SCALE * (det + 1)) <= 2 * e <= 9 * SCALE * (det + 1)) by (nonlinear_arith)
        requires
            abs_spec(e0) + abs_spec(e1) <= 9 * SCALE,
            -(det + 1) <= 2 * ex <= det,
            -(det + 1) <= 2 * ey <= det,
            e == e0 * ex + e1 * ey,
            1 <= det,
    ;
    crate::num::lemma_rdiv_bounds(num, SCALE as int);
    let cq = rdiv(num, SCALE as int);
    assert(det * (SCALE * cq) <= det * num + 5000 * det && det * num - 5000 * det < det * (SCALE
        * cq)) by (nonlinear_arith)
        requires
            1 <= det,
            SCALE * cq <= num + 5000,
            num + 5000 < SCALE * (cq + 1),
            SCALE == 10000,
    ;
    assert(det * (SCALE * cq) == SCALE * (det * cq)) by (nonlinear_arith);
    assert(-(10 * det) <= det * cq - det * q0 <= 10 * det) by (nonlinear_arith)
        requires
            1 <= det,
            SCALE * (det * cq) <= det * num + 5000 * det,
            det * num - 5000 * det < SCALE * (det * cq),
            det * num == SCALE * (det * q0) + e,
            -(9 * SCALE * (det + 1)) <= 2 * e <= 9 * SCALE * (det + 1),
            SCALE == 10000,
    ;
    assert(det * cq - det * q0 == det * (cq - q0)) by (nonlinear_arith);
    assert(-10 <= cq - q0 <= 10) by (nonlinear_arith)
        requires
            1 <= det,
            -(10 * det) <= det * (cq - q0) <= 10 * det,
    ;
}

proof fn lemma_reverse_subst(
    num: int,
    e0: int,
    e1: int,
    det: int,
    q0: int,
    ax: int,
    ay: int,
    rwx: int,
    rwy: int,
    ex: int,
    ey: int,
)
    requires
        num == e0 * rwx + e1 * rwy,
        ex == det * rwx - SCALE * ax,
        ey == det * rwy - SCALE * ay,
        e0 * ax + e1 * ay == det * q0,
    ensures
        det * num == SCALE * (det * q0) + e0 * ex + e1 * ey,
{
    assert(det * num == e0 * (det * rwx) + e1 * (det * rwy)) by (nonlinear_arith)
        requires
            num == e0 * rwx + e1 * rwy,
    ;
    assert(e0 * (det * rwx) == e0 * (SCALE * ax) + e0 * ex) by (nonlinear_arith)
        requires
            ex == det * rwx - SCALE * ax,
    ;
    assert(e1 * (det * rwy) == e1 * (SCALE * ay) + e1 * ey) by (nonlinear_arith)
        requires
            ey == det * rwy - SCALE * ay,
    ;
    assert(e0 * (SCALE * ax) + e1 * (SCALE * ay) == SCALE * (det * q0)) by (nonlinear_arith)
        requires
            e0 * ax + e1 * ay == det * q0,
    ;
}

/// The executable round trip in the other direction: for any well-formed
/// camera with small rows (accumulated zoom of six or less), converting a
/// point from camera space to world space and back lands within a
/// thousandth of a unit of where it started, on both axes.
pub proof fn lemma_camera_round_trip_reverse(c: Canvas, q: Point)
    requires
        c.wf(),
        q.in_bounds(),
        row_small(c.m00 as int, c.m01 as int),
        row_small(c.m10 as int, c.m11 as int),
    ensures
        -10 <= spec_to_camera_x(c, spec_to_world_pt(c, q)) - q.x <= 10,
        -10 <= spec_to_camera_y(c, spec_to_world_pt(c, q)) - q.y <= 10,
{
    let det = spec_det(c);
    let ax = c.m11 * q.x - c.m01 * q.y;
    let ay = c.m00 * q.y - c.m10 * q.x;
    assert(-1_800_000_000_000 <= ax <= 1_800_000_000_000 && -1_800_000_000_000 <= ay
        <= 1_800_000_000_000) by (nonlinear_arith)
        requires
            ax == c.m11 * q.x - c.m01 * q.y,
            ay == c.m00 * q.y - c.m10 * q.x,
            abs_spec(c.m00 as int) + abs_spec(c.m01 as int) <= 9 * SCALE,
            abs_spec(c.m10 as int) + abs_spec(c.m11 as int) <= 9 * SCALE,
            -COORD_LIMIT <= q.x <= COORD_LIMIT,
            -COORD_LIMIT <= q.y <= COORD_LIMIT,
    ;
    let rwx = rdiv(SCALE as int * ax, det);
    let rwy = rdiv(SCALE as int * ay, det);
    crate::num::lemma_rdiv_magnitude(SCALE as int * ax, det);
    crate::num::lemma_rdiv_magnitude(SCALE as int * ay, det);
    let w = spec_to_world_pt(c, q);
    assert(w.x == rwx + c.tx && w.y == rwy + c.ty);
    let ex = det * rwx - SCALE * ax;
    let ey = det * rwy - SCALE * ay;
    crate::num::lemma_rdiv_bounds(SCALE as int * ax, det);
    crate::num::lemma_rdiv_bounds(SCALE as int * ay, det);
    assert(-(det + 1) <= 2 * ex <= det && -(det + 1) <= 2 * ey <= det);
    let nx2 = spec_cam_num_x(c, w);
    let ny2 = spec_cam_num_y(c, w);
    assert(nx2 == c.m00 * rwx + c.m01 * rwy && ny2 == c.m10 * rwx + c.m11 * rwy);
    assert(c.m00 * ax + c.m01 * ay == det * q.x) by (nonlinear_arith)
        requires
            ax == c.m11 * q.x - c.m01 * q.y,
            ay == c.m00 * q.y - c.m10 * q.x,
            det == c.m00 * c.m11 - c.m01 * c.m10,
    ;
    assert(c.m10 * ax + c.m11 * ay == det * q.y) by (nonlinear_arith)
        requires
            ax == c.m11 * q.x - c.m01 * q.y,
            ay == c.m00 * q.y - c.m10 * q.x,
            det == c.m00 * c.m11 - c.m01 * c.m10,
    ;
    lemma_reverse_subst(nx2, c.m00 as int, c.m01 as int, det, q.x as int, ax, ay, rwx, rwy, ex, ey);
    lemma_reverse_subst(ny2, c.m10 as int, c.m11 as int, det, q.y as int, ax, ay, rwx, rwy, ex, ey);
    lemma_reverse_coord(nx2, c.m00 as int, c.m01 as int, det, q.x as int, ex, ey);
    lemma_reverse_coord(ny2, c.m10 as int, c.m11 as int, det, q.y as int, ex, ey);
}

/// On a camera that only translates (the matrix is still the identity),
/// the two maps are the exact inverse of one another: going to camera
/// space subtracts the translation and coming back adds it, with no
/// rounding at all.
pub proof fn lemma_round_trip_translation_exact(c: Canvas, p: Point)
    requires
        c.m00 == SCALE,
        c.m01 == 0,
        c.m10 == 0,
        c.m11 == SCALE,
        -COORD_LIMIT <= c.tx <= COORD_LIMIT,
        -COORD_LIMIT <= c.ty <= COORD_LIMIT,
        p.in_bounds(),
    ensures
        spec_to_camera_pt(c, p) == (Point { x: (p.x - c.tx) as i64, y: (p.y - c.ty) as i64 }),
        spec_to_world_pt(c, spec_to_camera_pt(c, p)) == p,
{
    let u = p.x - c.tx;
    let v = p.y - c.ty;
    assert(spec_cam_num_x(c, p) == SCALE as int * u) by (nonlinear_arith)
        requires
            c.m00 == SCALE && c.m01 == 0 && spec_cam_num_x(c, p) == c.m00 * u + c.m01 * v,
    ;
    assert(spec_cam_num_y(c, p) == SCALE as int * v) by (nonlinear_arith)
        requires
            c.m10 == 0 && c.m11 == SCALE && spec_cam_num_y(c, p) == c.m10 * u + c.m11 * v,
    ;
    assert(SCALE as int * u == u * SCALE as int && SCALE as int * v == v * SCALE as int)
        by (nonlinear_arith);
    lemma_rdiv_exact(u, SCALE as int);
    lemma_rdiv_exact(v, SCALE as int);
    let q = spec_to_camera_pt(c, p);
    assert(q.x == u && q.y == v);
    let det = spec_det(c);
    assert(det == SCALE as int * SCALE as int) by (nonlinear_arith)
        requires
            det == c.m00 * c.m11 - c.m01 * c.m10,
            c.m00 == SCALE && c.m11 == SCALE && c.m01 == 0 && c.m10 == 0,
    ;
    assert(SCALE as int * (c.m11 * q.x - c.m01 * q.y) == q.x * det) by (nonlinear_arith)
        requires
            c.m11 == SCALE && c.m01 == 0 && det == SCALE as int * SCALE as int,
    ;
    assert(SCALE as int * (c.m00 * q.y - c.m10 * q.x) == q.y * det) by (nonlinear_arith)
        requires
            c.m00 == SCALE && c.m10 == 0 && det == SCALE as int * SCALE as int,
    ;
    lemma_rdiv_exact(q.x as int, det);
    lemma_rdiv_exact(q.y as int, det);
}

/// On the fresh camera both maps are the identity: with no camera calls,
/// camera space and world space coincide.
pub proof fn lemma_default_camera_identity(c: Canvas, p: Point)
    requires
        c.is_fresh_camera(),
        p.in_bounds(),
    ensures
        spec_to_camera_pt(c, p) == p,
        spec_to_world_pt(c, p) == p,
{
    lemma_round_trip_translation_exact(c, p);
    assert(spec_to_camera_pt(c, p) == p);
    lemma_round_trip_translation_exact(c, spec_to_camera_pt(c, p));
}

} // verus!
