//! Stroke outlines rebuilt as filled polygons, for backends with no native
//! stroking: one quad per segment, each quad after the first extended
//! backward past the joint, and a cap polygon at each open end — a flat
//! quad for a butt cap, a half-circle fan for a round one.
//!
//! Also the device mapping shared by raster backends: the scale and
//! center offset derived from an output size, and the device-space path of
//! a shape with the seam of a closed outline repaired by one extra segment
//! to its second point.

use vstd::prelude::*;
use crate::canvas::{LineEnd, spec_is_polygon, clamp_pt};
use crate::geometry::{Point, dist, spec_dist, unit_vec, spec_unit_vec, PI_FX};
use crate::num::{
    SCALE, COORD_LIMIT, SIZE_LIMIT, rdiv, rdiv64, fmul, fdiv, fdiv_spec, lemma_rdiv_monotonic,
    lemma_rdiv_exact,
};

verus! {

/// No two consecutive points coincide.
pub open spec fn spec_no_adjacent_dups(pts: Seq<Point>) -> bool {
    forall|i: int| 0 <= i < pts.len() - 1 ==> #[trigger] pts[i] != pts[i + 1]
}

/// The half-width vector along a segment: the segment direction scaled to
/// half the stroke width.
pub open spec fn spec_gthick(a: Point, b: Point, half: int) -> (int, int) {
    let l = spec_dist(a, b);
    (rdiv((b.x - a.x) * half, l), rdiv((b.y - a.y) * half, l))
}

/// The perpendicular offset of a segment: its half-width vector rotated a
/// quarter turn counter-clockwise.
pub open spec fn spec_offset(gt: (int, int)) -> (int, int) {
    (-gt.1, gt.0)
}

/// The near-unit direction of a segment, in raw units of one.
pub open spec fn spec_grad(a: Point, b: Point) -> (int, int) {
    let l = spec_dist(a, b);
    (rdiv((b.x - a.x) * SCALE as int, l), rdiv((b.y - a.y) * SCALE as int, l))
}

/// The quad covering the first segment: the two endpoints, each pushed to
/// both sides of the line.
pub open spec fn spec_first_quad(a: Point, b: Point, half: int) -> Seq<Point> {
    let o = spec_offset(spec_gthick(a, b, half));
    seq![
        Point { x: (a.x + o.0) as i64, y: (a.y + o.1) as i64 },
        Point { x: (a.x - o.0) as i64, y: (a.y - o.1) as i64 },
        Point { x: (b.x - o.0) as i64, y: (b.y - o.1) as i64 },
        Point { x: (b.x + o.0) as i64, y: (b.y + o.1) as i64 },
    ]
}

/// The quad covering a later segment, extended backward by the half-width
/// vector so the joint with the previous quad is covered.
pub open spec fn spec_mid_quad(a: Point, b: Point, half: int) -> Seq<Point> {
    let gt = spec_gthick(a, b, half);
    let o = spec_offset(gt);
    seq![
        Point { x: (a.x - gt.0 + o.0) as i64, y: (a.y - gt.1 + o.1) as i64 },
        Point { x: (a.x - gt.0 - o.0) as i64, y: (a.y - gt.1 - o.1) as i64 },
        Point { x: (b.x - o.0) as i64, y: (b.y - o.1) as i64 },
        Point { x: (b.x + o.0) as i64, y: (b.y + o.1) as i64 },
    ]
}

/// A flat cap: the quad extending half a width past the end point.
pub open spec fn spec_butt_cap(p: Point, gt: (int, int), o: (int, int)) -> Seq<Point> {
    seq![
        Point { x: (p.x - gt.0 + o.0) as i64, y: (p.y - gt.1 + o.1) as i64 },
        Point { x: (p.x - gt.0 - o.0) as i64, y: (p.y - gt.1 - o.1) as i64 },
        Point { x: (p.x - o.0) as i64, y: (p.y - o.1) as i64 },
        Point { x: (p.x + o.0) as i64, y: (p.y + o.1) as i64 },
    ]
}

/// One vertex of the half-circle fan of a round cap: the point at angle
/// `pi * k / 32` on the circle of half the stroke width, rotated into the
/// frame of the (negated) segment direction and moved to the end point.
pub open spec fn spec_round_cap_vertex(p: Point, gn: (int, int), half: int, k: int) -> Point {
    let ang = rdiv(PI_FX as int * k, 32);
    let vx = rdiv(half * spec_unit_vec(ang).0, SCALE as int);
    let vy = rdiv(half * spec_unit_vec(ang).1, SCALE as int);
    Point {
        x: (p.x + rdiv(-gn.1 * vx - gn.0 * vy, SCALE as int)) as i64,
        y: (p.y + rdiv(gn.0 * vx - gn.1 * vy, SCALE as int)) as i64,
    }
}

/// A round cap: a half-circle fan of 32 vertices around the end point,
/// framed by the two side points of the stroke.
pub open spec fn spec_round_cap(p: Point, gn: (int, int), half: int, o: (int, int)) -> Seq<
    Point,
> {
    seq![Point { x: (p.x - o.0) as i64, y: (p.y - o.1) as i64 }] + Seq::new(
        32,
        |k: int| spec_round_cap_vertex(p, gn, half, k),
    ) + seq![Point { x: (p.x + o.0) as i64, y: (p.y + o.1) as i64 }]
}

/// The cap polygon of one open end.
pub open spec fn spec_cap(
    line_end: LineEnd,
    p: Point,
    gn: (int, int),
    gt: (int, int),
    o: (int, int),
    half: int,
) -> Seq<Point> {
    match line_end {
        LineEnd::Butt => spec_butt_cap(p, gt, o),
        LineEnd::Round => spec_round_cap(p, gn, half, o),
    }
}

/// The polygons of a rebuilt stroke: the first segment's quad, the start
/// cap, one joint-covering quad per further segment, and the end cap (its
/// direction reversed, its side offset kept).
pub open spec fn spec_stroke_polygons(pts: Seq<Point>, half: int, line_end: LineEnd) -> Seq<
    Seq<Point>,
> {
    let n = pts.len() as int;
    let gt0 = spec_gthick(pts[0], pts[1], half);
    let o0 = spec_offset(gt0);
    let gn0 = spec_grad(pts[0], pts[1]);
    let gtl = spec_gthick(pts[n - 2], pts[n - 1], half);
    let ol = spec_offset(gtl);
    let gnl = spec_grad(pts[n - 2], pts[n - 1]);
    seq![spec_first_quad(pts[0], pts[1], half), spec_cap(line_end, pts[0], gn0, gt0, o0, half)]
        + Seq::new((n - 2) as nat, |i: int| spec_mid_quad(pts[i + 1], pts[i + 2], half)) + seq![
        spec_cap(
            line_end,
            pts[n - 1],
            (-gnl.0, -gnl.1),
            (-gtl.0, -gtl.1),
            ol,
            half,
        ),
    ]
}

/// Half the stroke width stays in the working range.
pub open spec fn half_ok(half: int) -> bool {
    0 <= half <= 5_000_000
}

/// Two distinct window points are at least one raw unit apart.
proof fn lemma_dist_positive(a: Point, b: Point)
    requires
        a.in_bounds(),
        b.in_bounds(),
        a != b,
    ensures
        1 <= spec_dist(a, b) <= 30_000_000,
{
    let nx = (a.x - b.x) * (a.x - b.x);
    let ny = (a.y - b.y) * (a.y - b.y);
    assert(0 <= nx && 0 <= ny && 1 <= nx + ny <= 800_000_000_000_000) by (nonlinear_arith)
        requires
            a.x != b.x || a.y != b.y,
            -2 * COORD_LIMIT <= a.x - b.x <= 2 * COORD_LIMIT,
            -2 * COORD_LIMIT <= a.y - b.y <= 2 * COORD_LIMIT,
            nx == (a.x - b.x) * (a.x - b.x),
            ny == (a.y - b.y) * (a.y - b.y),
    ;
    let n = (nx + ny) as nat;
    crate::geometry::lemma_sqrt_floor_pos(n);
    crate::geometry::lemma_sqrt_floor_le(n, 30_000_000);
}

/// A segment component scaled by a factor and divided by the segment
/// length keeps the factor's magnitude.
proof fn lemma_component_scaled(d: int, l: int, f: int)
    requires
        1 <= l,
        d * d <= l * (l + 2),
        0 <= f,
    ensures
        -f <= rdiv(d * f, l) <= f,
{
    assert(-l <= d <= l) by (nonlinear_arith)
        requires
            1 <= l,
            d * d <= l * (l + 2),
    ;
    assert(-(l * f) <= d * f <= l * f) by (nonlinear_arith)
        requires
            -l <= d <= l,
            0 <= f,
    ;
    lemma_rdiv_monotonic(-(l * f), d * f, l);
    lemma_rdiv_monotonic(d * f, l * f, l);
    assert(l * f == f * l && -(l * f) == (-f) * l) by (nonlinear_arith);
    lemma_rdiv_exact(f, l);
    lemma_rdiv_exact(-f, l);
}

/// The half-width vector and perpendicular offset of a segment.
fn gthick_offset(a: Point, b: Point, half: i64) -> (r: ((i64, i64), (i64, i64)))
    requires
        a.in_bounds(),
        b.in_bounds(),
        a != b,
        half_ok(half as int),
    ensures
        (r.0.0 as int, r.0.1 as int) == spec_gthick(a, b, half as int),
        (r.1.0 as int, r.1.1 as int) == spec_offset(spec_gthick(a, b, half as int)),
        -half <= r.0.0 <= half,
        -half <= r.0.1 <= half,
        -half <= r.1.0 <= half,
        -half <= r.1.1 <= half,
{
    let l = dist(a, b);
    proof {
        lemma_dist_positive(a, b);
        lemma_seg_component_sq(a, b, l as int);
        assert(-200_000_000_000_000i64 <= (b.x - a.x) * half <= 200_000_000_000_000i64
            && -200_000_000_000_000i64 <= (b.y - a.y) * half <= 200_000_000_000_000i64)
            by (nonlinear_arith)
            requires
                -2 * COORD_LIMIT <= b.x - a.x <= 2 * COORD_LIMIT,
                -2 * COORD_LIMIT <= b.y - a.y <= 2 * COORD_LIMIT,
                half_ok(half as int),
        ;
        lemma_component_scaled((b.x - a.x) as int, l as int, half as int);
        lemma_component_scaled((b.y - a.y) as int, l as int, half as int);
    }
    let tx = rdiv64((b.x - a.x) * half, l);
    let ty = rdiv64((b.y - a.y) * half, l);
    ((tx, ty), (-ty, tx))
}

/// A segment component's square is bounded by the distance's.
proof fn lemma_seg_component_sq(a: Point, b: Point, l: int)
    requires
        l == spec_dist(a, b),
        a.in_bounds(),
        b.in_bounds(),
    ensures
        (b.x - a.x) * (b.x - a.x) <= l * (l + 2),
        (b.y - a.y) * (b.y - a.y) <= l * (l + 2),
{
    let nx = (a.x - b.x) * (a.x - b.x);
    let ny = (a.y - b.y) * (a.y - b.y);
    assert(0 <= nx && 0 <= ny) by (nonlinear_arith)
        requires
            nx == (a.x - b.x) * (a.x - b.x),
            ny == (a.y - b.y) * (a.y - b.y),
    ;
    let n = (nx + ny) as nat;
    crate::geometry::lemma_sqrt_floor_is_sqrt_pub(n);
    assert((b.x - a.x) * (b.x - a.x) <= l * (l + 2) && (b.y - a.y) * (b.y - a.y) <= l * (l + 2))
        by (nonlinear_arith)
        requires
            0 <= l,
            nx + ny < (l + 1) * (l + 1),
            nx == (a.x - b.x) * (a.x - b.x),
            ny == (a.y - b.y) * (a.y - b.y),
    ;
}

/// The near-unit direction of a segment.
fn grad(a: Point, b: Point) -> (r: (i64, i64))
    requires
        a.in_bounds(),
        b.in_bounds(),
        a != b,
    ensures
        (r.0 as int, r.1 as int) == spec_grad(a, b),
        -SCALE <= r.0 <= SCALE,
        -SCALE <= r.1 <= SCALE,
{
    let l = dist(a, b);
    proof {
        lemma_dist_positive(a, b);
        lemma_seg_component_sq(a, b, l as int);
        assert(-200_000_000_000i64 <= (b.x - a.x) * SCALE <= 200_000_000_000i64
            && -200_000_000_000i64 <= (b.y - a.y) * SCALE <= 200_000_000_000i64)
            by (nonlinear_arith)
            requires
                -2 * COORD_LIMIT <= b.x - a.x <= 2 * COORD_LIMIT,
                -2 * COORD_LIMIT <= b.y - a.y <= 2 * COORD_LIMIT,
        ;
        lemma_component_scaled((b.x - a.x) as int, l as int, SCALE as int);
        lemma_component_scaled((b.y - a.y) as int, l as int, SCALE as int);
    }
    (rdiv64((b.x - a.x) * SCALE, l), rdiv64((b.y - a.y) * SCALE, l))
}

/// The quad covering the first segment.
fn first_quad(a: Point, b: Point, half: i64) -> (q: Vec<Point>)
    requires
        a.in_bounds(),
        b.in_bounds(),
        a != b,
        half_ok(half as int),
    ensures
        q@ == spec_first_quad(a, b, half as int),
{
    let (_, o) = gthick_offset(a, b, half);
    let mut q: Vec<Point> = Vec::new();
    q.push(Point { x: a.x + o.0, y: a.y + o.1 });
    q.push(Point { x: a.x - o.0, y: a.y - o.1 });
    q.push(Point { x: b.x - o.0, y: b.y - o.1 });
    q.push(Point { x: b.x + o.0, y: b.y + o.1 });
    proof {
        assert(q@ =~= spec_first_quad(a, b, half as int));
    }
    q
}

/// The joint-covering quad of a later segment.
fn mid_quad(a: Point, b: Point, half: i64) -> (q: Vec<Point>)
    requires
        a.in_bounds(),
        b.in_bounds(),
        a != b,
        half_ok(half as int),
    ensures
        q@ == spec_mid_quad(a, b, half as int),
{
    let (gt, o) = gthick_offset(a, b, half);
    let mut q: Vec<Point> = Vec::new();
    q.push(Point { x: a.x - gt.0 + o.0, y: a.y - gt.1 + o.1 });
    q.push(Point { x: a.x - gt.0 - o.0, y: a.y - gt.1 - o.1 });
    q.push(Point { x: b.x - o.0, y: b.y - o.1 });
    q.push(Point { x: b.x + o.0, y: b.y + o.1 });
    proof {
        assert(q@ =~= spec_mid_quad(a, b, half as int));
    }
    q
}

/// The cap polygon of one open end.
fn cap(
    line_end: LineEnd,
    p: Point,
    gn: (i64, i64),
    gt: (i64, i64),
    o: (i64, i64),
    half: i64,
) -> (q: Vec<Point>)
    requires
        p.in_bounds(),
        half_ok(half as int),
        -SCALE <= gn.0 <= SCALE,
        -SCALE <= gn.1 <= SCALE,
        -half <= gt.0 <= half,
        -half <= gt.1 <= half,
        -half <= o.0 <= half,
        -half <= o.1 <= half,
    ensures
        q@ == spec_cap(
            line_end,
            p,
            (gn.0 as int, gn.1 as int),
            (gt.0 as int, gt.1 as int),
            (o.0 as int, o.1 as int),
            half as int,
        ),
{
    match line_end {
        LineEnd::Butt => {
            let mut q: Vec<Point> = Vec::new();
            q.push(Point { x: p.x - gt.0 + o.0, y: p.y - gt.1 + o.1 });
            q.push(Point { x: p.x - gt.0 - o.0, y: p.y - gt.1 - o.1 });
            q.push(Point { x: p.x - o.0, y: p.y - o.1 });
            q.push(Point { x: p.x + o.0, y: p.y + o.1 });
            proof {
                assert(q@ =~= spec_butt_cap(p, (gt.0 as int, gt.1 as int), (o.0 as int, o.1 as int)));
            }
            q
        },
        LineEnd::Round => {
            let mut q: Vec<Point> = Vec::new();
            q.push(Point { x: p.x - o.0, y: p.y - o.1 });
            let mut k: usize = 0;
            while k < 32
                invariant
                    k <= 32,
                    p.in_bounds(),
                    half_ok(half as int),
                    -SCALE <= gn.0 <= SCALE,
                    -SCALE <= gn.1 <= SCALE,
                    -half <= o.0 <= half,
                    -half <= o.1 <= half,
                    q@.len() == k + 1,
                    q@[0] == (Point { x: (p.x - o.0) as i64, y: (p.y - o.1) as i64 }),
                    forall|j: int|
                        0 <= j < k ==> q@[j + 1] == spec_round_cap_vertex(
                            p,
                            (gn.0 as int, gn.1 as int),
                            half as int,
                            j,
                        ),
                decreases 32 - k,
            {
                q.push(round_cap_vertex(p, gn, half, k));
                k += 1;
            }
            q.push(Point { x: p.x + o.0, y: p.y + o.1 });
            proof {
                assert(q@ =~= spec_round_cap(
                    p,
                    (gn.0 as int, gn.1 as int),
                    half as int,
                    (o.0 as int, o.1 as int),
                ));
            }
            q
        },
    }
}

/// One vertex of a round cap's half-circle fan.
fn round_cap_vertex(p: Point, gn: (i64, i64), half: i64, k: usize) -> (r: Point)
    requires
        p.in_bounds(),
        half_ok(half as int),
        -SCALE <= gn.0 <= SCALE,
        -SCALE <= gn.1 <= SCALE,
        k <= 32,
    ensures
        r == spec_round_cap_vertex(p, (gn.0 as int, gn.1 as int), half as int, k as int),
{
    let ang = rdiv64(PI_FX * (k as i64), 32);
    let (c, s) = unit_vec(ang);
    let vx = fmul(half, c);
    let vy = fmul(half, s);
    proof {
        crate::num::lemma_fmul_unit_bound(half as int, c as int);
        crate::num::lemma_fmul_unit_bound(half as int, s as int);
        assert(-(SCALE * half) <= -gn.1 * vx <= SCALE * half && -(SCALE * half) <= gn.0 * vy
            <= SCALE * half && -(SCALE * half) <= gn.0 * vx <= SCALE * half && -(SCALE * half)
            <= gn.1 * vy <= SCALE * half && -(2 * SCALE * half) <= -gn.1 * vx - gn.0 * vy <= 2
            * SCALE * half && -(2 * SCALE * half) <= gn.0 * vx - gn.1 * vy <= 2 * SCALE * half)
            by (nonlinear_arith)
            requires
                -SCALE <= gn.0 <= SCALE,
                -SCALE <= gn.1 <= SCALE,
                -half <= vx <= half,
                -half <= vy <= half,
                half_ok(half as int),
        ;
        lemma_rot_bound((-gn.1 * vx - gn.0 * vy) as int, half as int);
        lemma_rot_bound((gn.0 * vx - gn.1 * vy) as int, half as int);
    }
    let rx = rdiv64(-gn.1 * vx - gn.0 * vy, SCALE);
    let ry = rdiv64(gn.0 * vx - gn.1 * vy, SCALE);
    Point { x: p.x + rx, y: p.y + ry }
}

/// A rotated radius component stays within twice the radius.
proof fn lemma_rot_bound(n: int, half: int)
    requires
        -100_000_000_000 <= n <= 100_000_000_000,
        0 <= half,
        n <= 2 * SCALE * half,
        -(2 * SCALE * half) <= n,
    ensures
        -2 * half <= rdiv(n, SCALE as int) <= 2 * half,
{
    lemma_rdiv_monotonic(-(2 * SCALE * half), n, SCALE as int);
    lemma_rdiv_monotonic(n, 2 * SCALE * half, SCALE as int);
    assert(2 * SCALE * half == (2 * half) * SCALE && -(2 * SCALE * half) == (-(2 * half)) * SCALE)
        by (nonlinear_arith);
    lemma_rdiv_exact(2 * half, SCALE as int);
    lemma_rdiv_exact(-(2 * half), SCALE as int);
}

/// The polygons of a rebuilt stroke, in drawing order (see
/// [`spec_stroke_polygons`]): one quad per segment plus a cap at each
/// open end. The points must hold no zero-length segment.
pub fn stroke_polygons(points: &Vec<Point>, width: i64, line_end: LineEnd) -> (polys: Vec<
    Vec<Point>,
>)
    requires
        points@.len() >= 2,
        spec_no_adjacent_dups(points@),
        forall|i: int| 0 <= i < points@.len() ==> (#[trigger] points@[i]).in_bounds(),
        0 <= width <= COORD_LIMIT,
    ensures
        polys@.map_values(|v: Vec<Point>| v@) == spec_stroke_polygons(
            points@,
            width as int / 2,
            line_end,
        ),
{
    let half: i64 = ((width as u64) / 2) as i64;
    let ghost model = spec_stroke_polygons(points@, width as int / 2, line_end);
    let n = points.len();
    let p0 = points[0];
    let p1 = points[1];
    let mut polys: Vec<Vec<Point>> = Vec::new();
    polys.push(first_quad(p0, p1, half));
    let (gt0, o0) = gthick_offset(p0, p1, half);
    let gn0 = grad(p0, p1);
    polys.push(cap(line_end, p0, gn0, gt0, o0, half));
    let mut i: usize = 1;
    while i < n - 1
        invariant
            n == points@.len(),
            2 <= n,
            1 <= i <= n - 1,
            half == width as int / 2,
            half_ok(half as int),
            spec_no_adjacent_dups(points@),
            forall|j: int| 0 <= j < points@.len() ==> (#[trigger] points@[j]).in_bounds(),
            model == spec_stroke_polygons(points@, half as int, line_end),
            polys@.len() == i + 1,
            forall|j: int| 0 <= j <= i ==> (#[trigger] polys@[j])@ == model[j],
        decreases n - i,
    {
        let a = points[i];
        let b = points[i + 1];
        proof {
            assert(points@[i as int] != points@[i as int + 1]);
        }
        polys.push(mid_quad(a, b, half));
        i += 1;
    }
    let a = points[n - 2];
    let b = points[n - 1];
    proof {
        assert(points@[n - 2] != points@[n - 2 + 1]);
    }
    let (gtl, ol) = gthick_offset(a, b, half);
    let gnl = grad(a, b);
    polys.push(cap(line_end, b, (-gnl.0, -gnl.1), (-gtl.0, -gtl.1), ol, half));
    proof {
        assert(polys@.map_values(|v: Vec<Point>| v@) =~= model);
    }
    polys
}

/// The device mapping of an output size: device units per camera unit,
/// and the center offset, with one axis preserved exactly and the other
/// centered — the same mapping the SVG renderer uses.
pub fn device_scale_offset(size: Point, preserve_height: bool) -> (r: (i64, i64, i64))
    requires
        SCALE <= size.x <= SIZE_LIMIT,
        SCALE <= size.y <= SIZE_LIMIT,
    ensures
        r.0 == rdiv(
            if preserve_height {
                size.y as int
            } else {
                size.x as int
            },
            2,
        ),
        if preserve_height {
            r.1 == fdiv_spec(rdiv(size.x as int, 2), r.0 as int) && r.2 == SCALE
        } else {
            r.2 == fdiv_spec(rdiv(size.y as int, 2), r.0 as int) && r.1 == SCALE
        },
        SCALE / 2 <= r.0 <= SIZE_LIMIT / 2,
        0 <= r.1 <= 2 * SIZE_LIMIT,
        0 <= r.2 <= 2 * SIZE_LIMIT,
{
    if preserve_height {
        let scale = rdiv64(size.y, 2);
        let half_x = rdiv64(size.x, 2);
        proof {
            crate::svg_renderer::lemma_half_size_bounds(size.y as int);
            crate::svg_renderer::lemma_half_size_bounds(size.x as int);
            crate::svg_renderer::lemma_offset_bounds(
                rdiv(size.x as int, 2),
                rdiv(size.y as int, 2),
            );
        }
        (scale, fdiv(half_x, scale), SCALE)
    } else {
        let scale = rdiv64(size.x, 2);
        let half_y = rdiv64(size.y, 2);
        proof {
            crate::svg_renderer::lemma_half_size_bounds(size.x as int);
            crate::svg_renderer::lemma_half_size_bounds(size.y as int);
            crate::svg_renderer::lemma_offset_bounds(
                rdiv(size.y as int, 2),
                rdiv(size.x as int, 2),
            );
        }
        (scale, SCALE, fdiv(half_y, scale))
    }
}

/// The device-space point of a camera-space point under a mapping from
/// [`device_scale_offset`].
pub fn device_point(scale: i64, ox: i64, oy: i64, p: Point) -> (r: Point)
    requires
        SCALE / 2 <= scale <= SIZE_LIMIT / 2,
        0 <= ox <= 2 * SIZE_LIMIT,
        0 <= oy <= 2 * SIZE_LIMIT,
    ensures
        r.x == crate::svg_renderer::spec_dev_x(scale as int, ox as int, p),
        r.y == crate::svg_renderer::spec_dev_y(scale as int, oy as int, p),
{
    let c = clamp_pt(p);
    proof {
        assert(-7_000_000_000_000_000_000i64 <= (c.x + ox) * scale <= 7_000_000_000_000_000_000i64
            && -7_000_000_000_000_000_000i64 <= (oy - c.y) * scale
            <= 7_000_000_000_000_000_000i64) by (nonlinear_arith)
            requires
                -COORD_LIMIT <= c.x <= COORD_LIMIT,
                -COORD_LIMIT <= c.y <= COORD_LIMIT,
                0 <= ox <= 2 * SIZE_LIMIT,
                0 <= oy <= 2 * SIZE_LIMIT,
                0 <= scale <= SIZE_LIMIT / 2,
    ;
    }
    Point { x: rdiv64((c.x + ox) * scale, SCALE), y: rdiv64((oy - c.y) * scale, SCALE) }
}

/// The device-space path of a shape, with the seam of a closed outline
/// repaired: when the points close back onto their first point, one more
/// segment to the second point is appended, so joins render correctly at
/// the seam.
pub open spec fn spec_device_path(scale: int, ox: int, oy: int, pts: Seq<Point>) -> Seq<Point> {
    let mapped = pts.map_values(
        |p: Point|
            Point {
                x: crate::svg_renderer::spec_dev_x(scale, ox, p) as i64,
                y: crate::svg_renderer::spec_dev_y(scale, oy, p) as i64,
            },
    );
    if spec_is_polygon(pts) {
        mapped.push(mapped[1])
    } else {
        mapped
    }
}

/// The device-space path of a shape (see [`spec_device_path`]).
pub fn device_path_points(points: &Vec<Point>, scale: i64, ox: i64, oy: i64) -> (out: Vec<Point>)
    requires
        SCALE / 2 <= scale <= SIZE_LIMIT / 2,
        0 <= ox <= 2 * SIZE_LIMIT,
        0 <= oy <= 2 * SIZE_LIMIT,
    ensures
        out@ == spec_device_path(scale as int, ox as int, oy as int, points@),
{
    let ghost mapped = points@.map_values(
        |p: Point|
            Point {
                x: crate::svg_renderer::spec_dev_x(scale as int, ox as int, p) as i64,
                y: crate::svg_renderer::spec_dev_y(scale as int, oy as int, p) as i64,
            },
    );
    let mut out: Vec<Point> = Vec::new();
    let mut i: usize = 0;
    while i < points.len()
        invariant
            i <= points@.len(),
            SCALE / 2 <= scale <= SIZE_LIMIT / 2,
            0 <= ox <= 2 * SIZE_LIMIT,
            0 <= oy <= 2 * SIZE_LIMIT,
            mapped == points@.map_values(
                |p: Point|
                    Point {
                        x: crate::svg_renderer::spec_dev_x(scale as int, ox as int, p) as i64,
                        y: crate::svg_renderer::spec_dev_y(scale as int, oy as int, p) as i64,
                    },
            ),
            out@.len() == i,
            forall|j: int| 0 <= j < i ==> #[trigger] out@[j] == mapped[j],
        decreases points@.len() - i,
    {
        out.push(device_point(scale, ox, oy, points[i]));
        i += 1;
    }
    let closed = if points.len() < 3 {
        false
    } else {
        points[0] == points[points.len() - 1]
    };
    if closed {
        let second = out[1];
        out.push(second);
        proof {
            assert(out@ =~= mapped.push(mapped[1]));
        }
    } else {
        proof {
            assert(out@ =~= mapped);
        }
    }
    out
}

} // verus!
