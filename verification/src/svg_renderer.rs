//! A renderer producing Scalable Vector Graphics markup.
//!
//! Shapes arrive in camera space; a scale and center offset derived from
//! the output size map them onto the image. A closed shape with enough
//! vertices is tested for near-circularity (every vertex within ten
//! percent of the first vertex's distance from the centroid) and emitted
//! as a compact `<circle>`; other closed shapes become `<polygon>`
//! elements and everything else a `<polyline>`.

use vstd::prelude::*;
use crate::canvas::{Renderer, Shape, Stroke, LineEnd, spec_is_polygon, spec_clamp_pt};
use crate::color::{Color, spec_as_hex};
use crate::geometry::{Point, dist, spec_dist};
use crate::num::{
    SCALE, COORD_LIMIT, SIZE_LIMIT, rdiv, rdiv64, fdiv, fdiv_spec, clamp64, fmul,
    lemma_rdiv_monotonic, lemma_rdiv_exact,
};
use crate::text::{spec_fmt_fx, spec_fmt_int, fmt_fx, fmt_i64};

verus! {

/// Largest point count considered for circle detection.
pub const CIRCLE_DETECT_LIMIT: usize = 1_000_000_000;

/// A renderer for Scalable Vector Graphics.
///
/// The fields are public so that specifications can speak of them
/// directly; [`SvgRenderer::new`] is what establishes [`SvgRenderer::wf`].
#[derive(Debug, Clone)]
pub struct SvgRenderer {
    /// Device units per camera unit, in raw units.
    pub scale: i64,
    /// Horizontal center offset, in camera units.
    pub offset_x: i64,
    /// Vertical center offset, in camera units.
    pub offset_y: i64,
    /// Round every polygon and polyline coordinate to a whole number of
    /// device units.
    pub ints_only: bool,
    /// How many vertices a polygon needs before it is tested for
    /// near-circularity.
    pub circle_vertex_threshold: usize,
    /// The markup accumulated so far.
    pub document: String,
}

impl SvgRenderer {
    /// The device mapping parameters are in the ranges the arithmetic
    /// needs.
    pub open spec fn wf(self) -> bool {
        &&& SCALE / 2 <= self.scale <= SIZE_LIMIT / 2
        &&& 0 <= self.offset_x <= 2 * SIZE_LIMIT
        &&& 0 <= self.offset_y <= 2 * SIZE_LIMIT
        &&& 3 <= self.circle_vertex_threshold
    }
}

/// The horizontal device coordinate of a camera-space point: clamped into
/// the representable window, offset and scaled.
pub open spec fn spec_dev_x(scale: int, ox: int, p: Point) -> int {
    rdiv((spec_clamp_pt(p).x + ox) * scale, SCALE as int)
}

/// The vertical device coordinate of a camera-space point: the vertical
/// axis is flipped (images grow downward), offset and scaled.
pub open spec fn spec_dev_y(scale: int, oy: int, p: Point) -> int {
    rdiv((oy - spec_clamp_pt(p).y) * scale, SCALE as int)
}

/// A device coordinate as markup text: rounded to a whole number when
/// `ints_only` is set, full fixed-point text otherwise.
pub open spec fn spec_coord_text(ints_only: bool, v: int) -> Seq<char> {
    if ints_only {
        spec_fmt_int(rdiv(v, SCALE as int))
    } else {
        spec_fmt_fx(v)
    }
}

/// The `points` attribute body: every point as `x,y` followed by one
/// space.
pub open spec fn spec_points_text(
    scale: int,
    ox: int,
    oy: int,
    ints_only: bool,
    pts: Seq<Point>,
) -> Seq<char>
    decreases pts.len(),
{
    if pts.len() == 0 {
        Seq::empty()
    } else {
        spec_points_text(scale, ox, oy, ints_only, pts.drop_last()) + spec_coord_text(
            ints_only,
            spec_dev_x(scale, ox, pts.last()),
        ) + seq![','] + spec_coord_text(ints_only, spec_dev_y(scale, oy, pts.last())) + seq![' ']
    }
}

/// The sum of the clamped horizontal coordinates.
pub open spec fn spec_sum_x(pts: Seq<Point>) -> int
    decreases pts.len(),
{
    if pts.len() == 0 {
        0
    } else {
        spec_sum_x(pts.drop_last()) + spec_clamp_pt(pts.last()).x
    }
}

/// The sum of the clamped vertical coordinates.
pub open spec fn spec_sum_y(pts: Seq<Point>) -> int
    decreases pts.len(),
{
    if pts.len() == 0 {
        0
    } else {
        spec_sum_y(pts.drop_last()) + spec_clamp_pt(pts.last()).y
    }
}

/// The centroid of the clamped points, each coordinate rounded.
pub open spec fn spec_centroid(pts: Seq<Point>) -> Point {
    Point {
        x: rdiv(spec_sum_x(pts), pts.len() as int) as i64,
        y: rdiv(spec_sum_y(pts), pts.len() as int) as i64,
    }
}

/// The circle a closed shape approximates, if any: the centroid and the
/// first vertex's distance from it, provided every vertex's distance from
/// the centroid deviates from that nominal radius by at most ten percent,
/// in either direction — a vertex pulled toward the centroid disqualifies
/// the shape just as one pushed outward does, so a distorted shape is
/// never mistaken for a circle.
pub open spec fn spec_detect_circle(threshold: int, pts: Seq<Point>) -> Option<(Point, int)> {
    if pts.len() >= threshold && pts.len() <= CIRCLE_DETECT_LIMIT && spec_is_polygon(pts) {
        let c = spec_centroid(pts);
        let d = spec_dist(c, spec_clamp_pt(pts[0]));
        if forall|i: int|
            0 <= i < pts.len() ==> {
                let dev = 10 * (spec_dist(c, spec_clamp_pt(#[trigger] pts[i])) - d);
                -d <= dev <= d
            } {
            Some((c, d))
        } else {
            None
        }
    } else {
        None
    }
}

/// The style attribute body of a shape: the stroke's color, device-space
/// width, opacity when not fully opaque, and line cap; then the fill color
/// and its opacity, or `fill:none`.
pub open spec fn spec_style_text(
    scale: int,
    stroke: Option<Stroke>,
    fill: Option<Color>,
) -> Seq<char> {
    spec_stroke_style(scale, stroke) + spec_fill_style(fill)
}

/// The stroke half of the style attribute body.
pub open spec fn spec_stroke_style(scale: int, stroke: Option<Stroke>) -> Seq<char> {
    match stroke {
        Some(s) => "stroke:"@ + spec_as_hex(s.color, false) + ";stroke-width:"@ + spec_fmt_fx(
            rdiv(crate::num::clamp_spec(s.width as int, 0, COORD_LIMIT as int) * scale, SCALE as int),
        ) + ";"@ + (if s.color.a != SCALE {
            "stroke-opacity:"@ + spec_fmt_fx(s.color.a as int) + ";"@
        } else {
            Seq::empty()
        }) + (match s.line_end {
            LineEnd::Butt => "stroke-linecap:butt;"@,
            LineEnd::Round => "stroke-linecap:round;"@,
        }),
        None => Seq::empty(),
    }
}

/// The fill half of the style attribute body.
pub open spec fn spec_fill_style(fill: Option<Color>) -> Seq<char> {
    match fill {
        Some(f) => "fill:"@ + spec_as_hex(f, false) + ";"@ + (if f.a != SCALE {
            "fill-opacity:"@ + spec_fmt_fx(f.a as int) + ";"@
        } else {
            Seq::empty()
        }),
        None => "fill:none;"@,
    }
}

/// The markup one shape adds to the document. A shape with fewer than two
/// points adds nothing. A closed shape of more than three points becomes a
/// `<circle>` when it passes the near-circularity test and a `<polygon>`
/// otherwise; everything else becomes a `<polyline>`.
pub open spec fn spec_svg_shape(
    scale: int,
    ox: int,
    oy: int,
    ints_only: bool,
    threshold: int,
    pts: Seq<Point>,
    stroke: Option<Stroke>,
    fill: Option<Color>,
) -> Seq<char> {
    if pts.len() < 2 {
        Seq::empty()
    } else {
        let open: Seq<char> = if pts.len() > 3 && spec_is_polygon(pts) {
            match spec_detect_circle(threshold, pts) {
                Some((c, d)) => "<circle cx=\""@ + spec_fmt_fx(spec_dev_x(scale, ox, c))
                    + "\" cy=\""@ + spec_fmt_fx(spec_dev_y(scale, oy, c)) + "\" r=\""@
                    + spec_fmt_fx(rdiv(d * scale, SCALE as int)),
                None => "<polygon points=\""@ + spec_points_text(scale, ox, oy, ints_only, pts),
            }
        } else {
            "<polyline points=\""@ + spec_points_text(scale, ox, oy, ints_only, pts)
        };
        open + "\" style=\""@ + spec_style_text(scale, stroke, fill) + "\"/>"@
    }
}

/// The document head: the root element with its size, and the optional
/// full-size background rectangle.
pub open spec fn spec_svg_head(sx: int, sy: int, background: Option<Color>) -> Seq<char> {
    let head = "<svg xmlns=\"http://www.w3.org/2000/svg\" width=\""@ + spec_fmt_fx(sx)
        + "\" height=\""@ + spec_fmt_fx(sy) + "\">"@;
    match background {
        Some(b) => head + "<rect fill=\""@ + spec_as_hex(b, false) + "\" width=\""@ + spec_fmt_fx(
            sx,
        ) + "\" height=\""@ + spec_fmt_fx(sy) + "\"/>"@,
        None => head,
    }
}

impl SvgRenderer {
    /// Create a renderer for an output of the given size (in device
    /// units), with an optional background. When `preserve_height` is set
    /// the camera's vertical span maps exactly onto the output height and
    /// the horizontal axis is centered; otherwise the roles are swapped.
    /// A vertex threshold below three is raised to three.
    pub fn new(
        size: Point,
        background: Option<Color>,
        ints_only: bool,
        preserve_height: bool,
        circle_vertex_threshold: usize,
    ) -> (r: SvgRenderer)
        requires
            SCALE <= size.x <= SIZE_LIMIT,
            SCALE <= size.y <= SIZE_LIMIT,
        ensures
            r.wf(),
            r.ints_only == ints_only,
            r.circle_vertex_threshold == if circle_vertex_threshold < 3 {
                3int
            } else {
                circle_vertex_threshold as int
            },
            r.scale == rdiv(
                if preserve_height {
                    size.y as int
                } else {
                    size.x as int
                },
                2,
            ),
            if preserve_height {
                r.offset_x == fdiv_spec(rdiv(size.x as int, 2), r.scale as int) && r.offset_y
                    == SCALE
            } else {
                r.offset_y == fdiv_spec(rdiv(size.y as int, 2), r.scale as int) && r.offset_x
                    == SCALE
            },
            r.document@ == spec_svg_head(size.x as int, size.y as int, background),
    {
        let mut document = String::from_str("<svg xmlns=\"http://www.w3.org/2000/svg\" width=\"");
        document.append(fmt_fx(size.x).as_str());
        document.append("\" height=\"");
        document.append(fmt_fx(size.y).as_str());
        document.append("\">");
        if let Some(b) = background {
            document.append("<rect fill=\"");
            document.append(b.as_hex(false).as_str());
            document.append("\" width=\"");
            document.append(fmt_fx(size.x).as_str());
            document.append("\" height=\"");
            document.append(fmt_fx(size.y).as_str());
            document.append("\"/>");
        }
        let (scale, offset_x, offset_y) = if preserve_height {
            let scale = rdiv64(size.y, 2);
            let half_x = rdiv64(size.x, 2);
            proof {
                lemma_half_size_bounds(size.y as int);
                lemma_half_size_bounds(size.x as int);
                lemma_offset_bounds(rdiv(size.x as int, 2), rdiv(size.y as int, 2));
            }
            (scale, fdiv(half_x, scale), SCALE)
        } else {
            let scale = rdiv64(size.x, 2);
            let half_y = rdiv64(size.y, 2);
            proof {
                lemma_half_size_bounds(size.x as int);
                lemma_half_size_bounds(size.y as int);
                lemma_offset_bounds(rdiv(size.y as int, 2), rdiv(size.x as int, 2));
            }
            (scale, SCALE, fdiv(half_y, scale))
        };
        let circle_vertex_threshold = if circle_vertex_threshold < 3 {
            3
        } else {
            circle_vertex_threshold
        };
        SvgRenderer { scale, offset_x, offset_y, ints_only, circle_vertex_threshold, document }
    }
}

/// The circle a closed shape approximates, if any.
fn detect_circle(threshold: usize, pts: &Vec<Point>) -> (r: Option<(Point, i64)>)
    requires
        3 <= threshold,
    ensures
        match spec_detect_circle(threshold as int, pts@) {
            Some(sc) => r is Some && r.unwrap().0 == sc.0 && r.unwrap().1 == sc.1,
            None => r is None,
        },
        match r {
            Some(c) => c.0.in_bounds() && 0 <= c.1 <= 30_000_000,
            None => true,
        },
{
    if !(pts.len() >= threshold && pts.len() <= CIRCLE_DETECT_LIMIT) {
        return None;
    }
    let is_poly = if pts.len() < 3 {
        false
    } else {
        pts[0] == pts[pts.len() - 1]
    };
    if !is_poly {
        return None;
    }
    let n = pts.len();
    let mut sx: i64 = 0;
    let mut sy: i64 = 0;
    let mut i: usize = 0;
    while i < n
        invariant
            n == pts@.len(),
            3 <= n <= CIRCLE_DETECT_LIMIT,
            i <= n,
            sx == spec_sum_x(pts@.take(i as int)),
            sy == spec_sum_y(pts@.take(i as int)),
            -(i as int) * COORD_LIMIT <= sx <= (i as int) * COORD_LIMIT,
            -(i as int) * COORD_LIMIT <= sy <= (i as int) * COORD_LIMIT,
        decreases n - i,
    {
        let c = crate::canvas::clamp_pt(pts[i]);
        proof {
            assert((i + 1) as int * COORD_LIMIT == i as int * COORD_LIMIT + COORD_LIMIT)
                by (nonlinear_arith);
            assert(-(i + 1) as int * COORD_LIMIT == -(i as int) * COORD_LIMIT - COORD_LIMIT)
                by (nonlinear_arith);
        }
        sx = sx + c.x;
        sy = sy + c.y;
        i += 1;
        proof {
            assert(pts@.take(i as int).drop_last() =~= pts@.take(i as int - 1));
        }
    }
    proof {
        assert(pts@.take(n as int) =~= pts@);
        assert(-(n as int) * COORD_LIMIT >= -10_000_000_000_000_000i64 && (n as int) * COORD_LIMIT
            <= 10_000_000_000_000_000i64) by (nonlinear_arith)
            requires
                3 <= n <= CIRCLE_DETECT_LIMIT,
        ;
    }
    let cx = rdiv64(sx, n as i64);
    let cy = rdiv64(sy, n as i64);
    proof {
        lemma_centroid_bound(sx as int, n as int);
        lemma_centroid_bound(sy as int, n as int);
    }
    let c = Point { x: cx, y: cy };
    let d = dist(c, crate::canvas::clamp_pt(pts[0]));
    let mut i: usize = 0;
    while i < n
        invariant
            n == pts@.len(),
            3 <= n <= CIRCLE_DETECT_LIMIT,
            i <= n,
            c == spec_centroid(pts@),
            c.in_bounds(),
            0 <= d <= 30_000_000,
            d == spec_dist(c, spec_clamp_pt(pts@[0])),
            forall|j: int|
                0 <= j < i ==> {
                    let dev = 10 * (spec_dist(c, spec_clamp_pt(#[trigger] pts@[j])) - d);
                    -d <= dev <= d
                },
        decreases n - i,
    {
        let di = dist(c, crate::canvas::clamp_pt(pts[i]));
        let dev = 10 * (di - d);
        if dev > d || dev < -d {
            return None;
        }
        i += 1;
    }
    Some((c, d))
}

/// The centroid coordinate of `n` window-bounded values stays in the
/// window.
proof fn lemma_centroid_bound(s: int, n: int)
    requires
        1 <= n,
        -n * COORD_LIMIT <= s <= n * COORD_LIMIT,
    ensures
        -COORD_LIMIT <= rdiv(s, n) <= COORD_LIMIT,
{
    crate::num::lemma_rdiv_bounds(s, n);
    let q = rdiv(s, n);
    let h = n / 2;
    assert(0 <= h && 2 * h <= n);
    assert(-COORD_LIMIT <= q <= COORD_LIMIT) by (nonlinear_arith)
        requires
            1 <= n,
            -n * COORD_LIMIT <= s <= n * COORD_LIMIT,
            0 <= h,
            2 * h <= n,
            n * q <= s + h,
            s + h < n * (q + 1),
    ;
}

impl SvgRenderer {
    /// The horizontal device coordinate of a camera-space point.
    fn dev_x(&self, p: Point) -> (r: i64)
        requires
            self.wf(),
        ensures
            r == spec_dev_x(self.scale as int, self.offset_x as int, p),
            -700_000_000_000_000i64 <= r <= 700_000_000_000_000i64,
    {
        let c = crate::canvas::clamp_pt(p);
        proof {
            assert(-7_000_000_000_000_000_000i64 <= (c.x + self.offset_x) * self.scale
                <= 7_000_000_000_000_000_000i64) by (nonlinear_arith)
                requires
                    -COORD_LIMIT <= c.x <= COORD_LIMIT,
                    0 <= self.offset_x <= 2 * SIZE_LIMIT,
                    0 <= self.scale <= SIZE_LIMIT / 2,
            ;
        }
        rdiv64((c.x + self.offset_x) * self.scale, SCALE)
    }

    /// The vertical device coordinate of a camera-space point (vertical
    /// axis flipped).
    fn dev_y(&self, p: Point) -> (r: i64)
        requires
            self.wf(),
        ensures
            r == spec_dev_y(self.scale as int, self.offset_y as int, p),
            -700_000_000_000_000i64 <= r <= 700_000_000_000_000i64,
    {
        let c = crate::canvas::clamp_pt(p);
        proof {
            assert(-7_000_000_000_000_000_000i64 <= (self.offset_y - c.y) * self.scale
                <= 7_000_000_000_000_000_000i64) by (nonlinear_arith)
                requires
                    -COORD_LIMIT <= c.y <= COORD_LIMIT,
                    0 <= self.offset_y <= 2 * SIZE_LIMIT,
                    0 <= self.scale <= SIZE_LIMIT / 2,
            ;
        }
        rdiv64((self.offset_y - c.y) * self.scale, SCALE)
    }

    /// One device coordinate as markup text.
    fn coord_text(&self, v: i64) -> (s: String)
        requires
            -800_000_000_000_000i64 <= v <= 800_000_000_000_000i64,
        ensures
            s@ == spec_coord_text(self.ints_only, v as int),
    {
        if self.ints_only {
            fmt_i64(rdiv64(v, SCALE))
        } else {
            fmt_fx(v)
        }
    }

    /// Append the `points` attribute body for a point sequence.
    fn append_points_text(&self, out: &mut String, pts: &Vec<Point>)
        requires
            self.wf(),
        ensures
            final(out)@ == old(out)@ + spec_points_text(
                self.scale as int,
                self.offset_x as int,
                self.offset_y as int,
                self.ints_only,
                pts@,
            ),
    {
        let ghost base = out@;
        let mut i: usize = 0;
        while i < pts.len()
            invariant
                self.wf(),
                i <= pts@.len(),
                out@ == base + spec_points_text(
                    self.scale as int,
                    self.offset_x as int,
                    self.offset_y as int,
                    self.ints_only,
                    pts@.take(i as int),
                ),
            decreases pts@.len() - i,
        {
            proof {
                reveal_strlit(",");
                reveal_strlit(" ");
            }
            let p = pts[i];
            out.append(self.coord_text(self.dev_x(p)).as_str());
            out.append(",");
            out.append(self.coord_text(self.dev_y(p)).as_str());
            out.append(" ");
            i += 1;
            proof {
                assert(pts@.take(i as int).drop_last() =~= pts@.take(i as int - 1));
                assert(pts@.take(i as int).last() == pts@[i - 1]);
                assert(","@ =~= seq![',']);
                assert(" "@ =~= seq![' ']);
            }
        }
        proof {
            assert(pts@.take(pts@.len() as int) =~= pts@);
        }
    }

    /// Append the style attribute body for a stroke and fill.
    fn append_style_text(&self, out: &mut String, stroke: &Option<Stroke>, fill: &Option<Color>)
        requires
            self.wf(),
        ensures
            final(out)@ == old(out)@ + spec_style_text(self.scale as int, *stroke, *fill),
    {
        self.append_stroke_style(out, stroke);
        append_fill_style(out, fill);
    }

    /// Append the stroke half of the style attribute body.
    fn append_stroke_style(&self, out: &mut String, stroke: &Option<Stroke>)
        requires
            self.wf(),
        ensures
            final(out)@ == old(out)@ + spec_stroke_style(self.scale as int, *stroke),
    {
        match stroke {
            Some(s) => {
                out.append("stroke:");
                out.append(s.color.as_hex(false).as_str());
                out.append(";stroke-width:");
                let w = clamp64(s.width, 0, COORD_LIMIT);
                out.append(fmt_fx(fmul(w, self.scale)).as_str());
                out.append(";");
                if s.color.a != SCALE {
                    out.append("stroke-opacity:");
                    out.append(fmt_fx(s.color.a).as_str());
                    out.append(";");
                }
                match s.line_end {
                    LineEnd::Butt => out.append("stroke-linecap:butt;"),
                    LineEnd::Round => out.append("stroke-linecap:round;"),
                }
            },
            None => {},
        }
    }

    /// Whether the device mapping parameters are in range.
    #[verifier::rlimit(30)]
    fn is_wf(&self) -> (b: bool)
        ensures
            b == self.wf(),
    {
        SCALE / 2 <= self.scale && self.scale <= SIZE_LIMIT / 2 && 0 <= self.offset_x
            && self.offset_x <= 2 * SIZE_LIMIT && 0 <= self.offset_y && self.offset_y <= 2
            * SIZE_LIMIT && 3 <= self.circle_vertex_threshold
    }

    /// Append one shape's markup to the document: the device mapping, the
    /// circle test for closed shapes, and the element text (see
    /// [`spec_svg_shape`]). Everything but the document is untouched. On a
    /// renderer whose mapping parameters have been put out of range the
    /// call does nothing.
    #[verifier::rlimit(100)]
    pub fn render_shape(&mut self, shape: &Shape)
        ensures
            *final(self) == (SvgRenderer { document: final(self).document, ..*old(self) }),
            final(self).document@ == old(self).document@ + if old(self).wf() {
                spec_svg_shape(
                    old(self).scale as int,
                    old(self).offset_x as int,
                    old(self).offset_y as int,
                    old(self).ints_only,
                    old(self).circle_vertex_threshold as int,
                    shape.points@,
                    shape.stroke,
                    shape.fill,
                )
            } else {
                Seq::empty()
            },
    {
        if !self.is_wf() {
            return ;
        }
        if shape.points.len() < 2 {
            return ;
        }
        let is_poly = shape.is_polygon();
        let mut doc = String::new();
        std::mem::swap(&mut doc, &mut self.document);
        let ghost base = doc@;
        let circle: Option<(Point, i64)> = if shape.points.len() > 3 && is_poly {
            detect_circle(self.circle_vertex_threshold, &shape.points)
        } else {
            None
        };
        match circle {
            Some((c, d)) => {
                doc.append("<circle cx=\"");
                doc.append(fmt_fx(self.dev_x(c)).as_str());
                doc.append("\" cy=\"");
                doc.append(fmt_fx(self.dev_y(c)).as_str());
                doc.append("\" r=\"");
                doc.append(fmt_fx(fmul(d, self.scale)).as_str());
            },
            None => {
                if shape.points.len() > 3 && is_poly {
                    doc.append("<polygon points=\"");
                } else {
                    doc.append("<polyline points=\"");
                }
                self.append_points_text(&mut doc, &shape.points);
            },
        }
        doc.append("\" style=\"");
        self.append_style_text(&mut doc, &shape.stroke, &shape.fill);
        doc.append("\"/>");
        std::mem::swap(&mut doc, &mut self.document);
    }
}

/// Append the fill half of the style attribute body.
fn append_fill_style(out: &mut String, fill: &Option<Color>)
    ensures
        final(out)@ == old(out)@ + spec_fill_style(*fill),
{
    match fill {
        Some(f) => {
            out.append("fill:");
            out.append(f.as_hex(false).as_str());
            out.append(";");
            if f.a != SCALE {
                out.append("fill-opacity:");
                out.append(fmt_fx(f.a).as_str());
                out.append(";");
            }
        },
        None => {
            out.append("fill:none;");
        },
    }
}

impl Renderer for SvgRenderer {
    type Output = String;

    /// Render one camera-space shape into the document (see
    /// [`SvgRenderer::render_shape`]).
    fn render(&mut self, shape: &Shape)
        ensures
            *final(self) == (SvgRenderer { document: final(self).document, ..*old(self) }),
            final(self).document@ == old(self).document@ + if old(self).wf() {
                spec_svg_shape(
                    old(self).scale as int,
                    old(self).offset_x as int,
                    old(self).offset_y as int,
                    old(self).ints_only,
                    old(self).circle_vertex_threshold as int,
                    shape.points@,
                    shape.stroke,
                    shape.fill,
                )
            } else {
                Seq::empty()
            },
    {
        self.render_shape(shape);
    }

    /// Close the root element and return the markup: the accumulated
    /// document with the closing root tag appended.
    fn finalize(self) -> (out: String)
        ensures
            out@ == self.document@ + "</svg>"@,
    {
        let mut document = self.document;
        document.append("</svg>");
        document
    }
}

/// Half of a size in range stays in the ranges the device mapping needs.
pub(crate) proof fn lemma_half_size_bounds(s: int)
    requires
        SCALE <= s <= SIZE_LIMIT,
    ensures
        SCALE / 2 <= rdiv(s, 2) <= SIZE_LIMIT / 2,
{
    lemma_rdiv_monotonic(SCALE as int, s, 2);
    lemma_rdiv_monotonic(s, SIZE_LIMIT as int, 2);
    assert(rdiv(SCALE as int, 2) == SCALE / 2);
    assert(rdiv(SIZE_LIMIT as int, 2) == SIZE_LIMIT / 2);
}

/// The center offset of the non-preserved axis is nonnegative and at most
/// twice the size limit.
pub(crate) proof fn lemma_offset_bounds(half: int, scale: int)
    requires
        SCALE / 2 <= half <= SIZE_LIMIT / 2,
        SCALE / 2 <= scale <= SIZE_LIMIT / 2,
    ensures
        0 <= fdiv_spec(half, scale) <= 2 * SIZE_LIMIT,
{
    assert(fdiv_spec(half, scale) == rdiv(half * SCALE as int, scale));
    assert(0 <= half * SCALE as int <= 400_000_000_000i64) by (nonlinear_arith)
        requires
            0 <= half <= SIZE_LIMIT / 2,
    ;
    lemma_rdiv_monotonic(0, half * SCALE as int, scale);
    lemma_rdiv_exact(0, scale);
    assert(0 * scale == 0) by (nonlinear_arith);
    crate::num::lemma_rdiv_bounds(half * SCALE as int, scale);
    assert(rdiv(half * SCALE as int, scale) <= 2 * SIZE_LIMIT) by (nonlinear_arith)
        requires
            scale * rdiv(half * SCALE as int, scale) <= half * SCALE as int + scale / 2,
            0 <= half * SCALE as int <= 400_000_000_000i64,
            SCALE / 2 <= scale <= SIZE_LIMIT / 2,
            0 <= rdiv(half * SCALE as int, scale),
    ;
}

} // verus!
