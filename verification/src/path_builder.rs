//! A builder describing the shape of a path: straight segments and
//! flattened bezier curves, grouped into runs separated by pen lifts.
//!
//! The pen starts at the origin. `move_to` archives the current run (when
//! it has at least two points) and starts a new one; curves are flattened
//! into `length * points_per_unit` straight segments, the points evaluated
//! by repeated linear interpolation. `build` hands the runs to a canvas:
//! one concatenated shape for the fill, so fills span disjoint runs, and
//! one shape per run for the stroke, so strokes never bridge pen lifts.

use vstd::prelude::*;
use crate::canvas::{
    Canvas, Shape, Stroke, camera_eq, spec_dedup, spec_to_world_pt, spec_shapes_appended,
    spec_shapes_appended_absolute,
};
use crate::color::Color;
use crate::geometry::{Point, dist, spec_dist};
use crate::num::{
    SCALE, COORD_LIMIT, PPU_LIMIT, rdiv, rdiv64, lemma_rdiv_monotonic, lemma_rdiv_exact,
};

verus! {

/// A path under construction: finished runs, the in-progress run, and the
/// flattening resolution.
///
/// The fields are public so that specifications can speak of them
/// directly; the methods are what keeps [`PathBuilder::wf`] true.
#[derive(Debug, Clone)]
pub struct PathBuilder {
    /// Flattening resolution for curves, in points per unit.
    pub points_per_unit: usize,
    /// Finished runs, each of at least two points.
    pub shapes: Vec<Vec<Point>>,
    /// The in-progress run; never empty.
    pub current_shape: Vec<Point>,
}

impl PathBuilder {
    /// The builder is well formed: the resolution in range, the current
    /// run nonempty, every archived run of at least two points, and every
    /// point within the representable window.
    pub open spec fn wf(self) -> bool {
        &&& self.points_per_unit <= PPU_LIMIT
        &&& self.current_shape@.len() >= 1
        &&& forall|j: int|
            0 <= j < self.current_shape@.len() ==> (#[trigger] self.current_shape@[j]).in_bounds()
        &&& forall|i: int| 0 <= i < self.shapes@.len() ==> (#[trigger] self.shapes@[i])@.len() >= 2
        &&& forall|i: int, j: int|
            0 <= i < self.shapes@.len() && 0 <= j < self.shapes@[i]@.len() ==> (#[trigger] self
                .shapes@[i]@[j]).in_bounds()
    }

    /// A fresh builder: no finished runs, the pen resting at the origin.
    pub open spec fn is_fresh(self, points_per_unit: int) -> bool {
        &&& self.points_per_unit == points_per_unit
        &&& self.shapes@.len() == 0
        &&& self.current_shape@ =~= seq![Point { x: 0i64, y: 0i64 }]
    }

    /// Create a builder with the pen at the origin.
    pub fn new(points_per_unit: usize) -> (b: PathBuilder)
        requires
            points_per_unit <= PPU_LIMIT,
        ensures
            b.wf(),
            b.is_fresh(points_per_unit as int),
    {
        let mut current = Vec::new();
        current.push(Point { x: 0, y: 0 });
        PathBuilder { points_per_unit, shapes: Vec::new(), current_shape: current }
    }

    /// Move the pen without drawing: the current run is archived when it
    /// has at least two points (and discarded otherwise), and a new run
    /// starts at the point.
    pub fn move_to(self, point: Point) -> (r: PathBuilder)
        requires
            self.wf(),
            point.in_bounds(),
        ensures
            r.wf(),
            r.points_per_unit == self.points_per_unit,
            r.current_shape@ =~= seq![point],
            r.shapes@ == if self.current_shape@.len() > 1 {
                self.shapes@.push(self.current_shape)
            } else {
                self.shapes@
            },
    {
        let mut b = self;
        if b.current_shape.len() > 1 {
            let done = b.current_shape;
            b.shapes.push(done);
        }
        let mut current = Vec::new();
        current.push(point);
        b.current_shape = current;
        b
    }

    /// Draw a straight line to the point; a point equal to the pen's
    /// position is dropped, so runs never hold zero-length segments.
    pub fn line_to(self, point: Point) -> (r: PathBuilder)
        requires
            self.wf(),
            point.in_bounds(),
        ensures
            r.wf(),
            r.points_per_unit == self.points_per_unit,
            r.shapes@ == self.shapes@,
            r.current_shape@ == if point == self.current_shape@.last() {
                self.current_shape@
            } else {
                self.current_shape@.push(point)
            },
    {
        let mut b = self;
        let last = b.current_shape[b.current_shape.len() - 1];
        if !(point == last) {
            b.current_shape.push(point);
        }
        b
    }

    /// The first point of the path: the start of the first archived run,
    /// or of the current run when nothing is archived yet. The path must
    /// have at least one real segment.
    pub fn first_point(&self) -> (p: Point)
        requires
            self.wf(),
            self.shapes@.len() > 0 || self.current_shape@.len() > 1,
        ensures
            p == spec_first_point(*self),
            p.in_bounds(),
    {
        if self.shapes.len() > 0 {
            let run = &self.shapes[0];
            run[0]
        } else {
            self.current_shape[0]
        }
    }

    /// Close the path: draw a straight line back to the path's first
    /// point.
    pub fn close(self) -> (r: PathBuilder)
        requires
            self.wf(),
            self.shapes@.len() > 0 || self.current_shape@.len() > 1,
        ensures
            r.wf(),
            r.points_per_unit == self.points_per_unit,
            r.shapes@ == self.shapes@,
            r.current_shape@ == if spec_first_point(self) == self.current_shape@.last() {
                self.current_shape@
            } else {
                self.current_shape@.push(spec_first_point(self))
            },
    {
        let first = self.first_point();
        self.line_to(first)
    }
}

/// The first point of the path: the start of the first archived run, or of
/// the current run when nothing is archived yet.
pub open spec fn spec_first_point(b: PathBuilder) -> Point {
    if b.shapes@.len() > 0 {
        b.shapes@[0]@[0]
    } else {
        b.current_shape@[0]
    }
}

/// The point a fraction `t` (in raw units of one) of the way from `a`
/// to `b`: `a - (a - b) * t`, each coordinate rounded to the grid.
pub open spec fn spec_lerp(a: Point, b: Point, t: int) -> Point {
    Point {
        x: (a.x - rdiv((a.x - b.x) * t, SCALE as int)) as i64,
        y: (a.y - rdiv((a.y - b.y) * t, SCALE as int)) as i64,
    }
}

/// The point of a quadratic bezier at parameter `t`, by two levels of
/// linear interpolation.
pub open spec fn spec_quad_point(s: Point, c: Point, e: Point, t: int) -> Point {
    spec_lerp(spec_lerp(s, c, t), spec_lerp(c, e, t), t)
}

/// The point of a cubic bezier at parameter `t`, by three levels of
/// linear interpolation.
pub open spec fn spec_cubic_point(s: Point, c0: Point, c1: Point, e: Point, t: int) -> Point {
    let a = spec_lerp(s, c0, t);
    let b = spec_lerp(c0, c1, t);
    let c = spec_lerp(c1, e, t);
    spec_lerp(spec_lerp(a, b, t), spec_lerp(b, c, t), t)
}

/// How many points a curve is flattened to: its control-polygon length
/// times the resolution, rounded down.
pub open spec fn spec_bezier_count(ppu: int, len: int) -> int {
    (len * ppu) / (SCALE as int)
}

/// The interpolation parameter of the `i`th emitted curve point (counting
/// from zero) out of `n`.
pub open spec fn spec_bezier_t(i: int, n: int) -> int {
    rdiv((i + 1) * SCALE as int, n)
}

/// The points a quadratic bezier is flattened to, start exclusive, end
/// inclusive.
pub open spec fn spec_quad_points(s: Point, c: Point, e: Point, ppu: int) -> Seq<Point> {
    let n = spec_bezier_count(ppu, spec_dist(s, c) + spec_dist(c, e));
    Seq::new(
        if n >= 0 {
            n as nat
        } else {
            0nat
        },
        |i: int| spec_quad_point(s, c, e, spec_bezier_t(i, n)),
    )
}

/// The points a cubic bezier is flattened to, start exclusive, end
/// inclusive.
pub open spec fn spec_cubic_points(s: Point, c0: Point, c1: Point, e: Point, ppu: int) -> Seq<
    Point,
> {
    let n = spec_bezier_count(ppu, spec_dist(s, c0) + spec_dist(c0, c1) + spec_dist(c1, e));
    Seq::new(
        if n >= 0 {
            n as nat
        } else {
            0nat
        },
        |i: int| spec_cubic_point(s, c0, c1, e, spec_bezier_t(i, n)),
    )
}

/// Linear interpolation between bounded points stays between them.
proof fn lemma_lerp_coord_range(d: int, t: int)
    requires
        0 <= t <= SCALE,
    ensures
        d >= 0 ==> 0 <= rdiv(d * t, SCALE as int) <= d,
        d <= 0 ==> d <= rdiv(d * t, SCALE as int) <= 0,
{
    if d >= 0 {
        assert(0 <= d * t <= d * SCALE) by (nonlinear_arith)
            requires
                d >= 0,
                0 <= t <= SCALE,
        ;
        lemma_rdiv_monotonic(0, d * t, SCALE as int);
        lemma_rdiv_monotonic(d * t, d * SCALE as int, SCALE as int);
        lemma_rdiv_exact(0, SCALE as int);
        lemma_rdiv_exact(d, SCALE as int);
        assert(0 * SCALE as int == 0 && d * SCALE as int == d * SCALE) by (nonlinear_arith);
    } else {
        assert(d * SCALE <= d * t <= 0) by (nonlinear_arith)
            requires
                d <= 0,
                0 <= t <= SCALE,
        ;
        lemma_rdiv_monotonic(d * t, 0, SCALE as int);
        lemma_rdiv_monotonic(d * SCALE as int, d * t, SCALE as int);
        lemma_rdiv_exact(0, SCALE as int);
        lemma_rdiv_exact(d, SCALE as int);
        assert(0 * SCALE as int == 0 && d * SCALE as int == d * SCALE) by (nonlinear_arith);
    }
}

/// The interpolated point between two window points.
fn lerp(a: Point, b: Point, t: i64) -> (r: Point)
    requires
        a.in_bounds(),
        b.in_bounds(),
        0 <= t <= SCALE,
    ensures
        r == spec_lerp(a, b, t as int),
        r.in_bounds(),
{
    let dx: i64 = a.x - b.x;
    let dy: i64 = a.y - b.y;
    proof {
        assert(-200_000_000_000i64 <= dx * t <= 200_000_000_000i64 && -200_000_000_000i64 <= dy * t
            <= 200_000_000_000i64) by (nonlinear_arith)
            requires
                -2 * COORD_LIMIT <= dx <= 2 * COORD_LIMIT,
                -2 * COORD_LIMIT <= dy <= 2 * COORD_LIMIT,
                0 <= t <= SCALE,
        ;
        lemma_lerp_coord_range(dx as int, t as int);
        lemma_lerp_coord_range(dy as int, t as int);
    }
    Point { x: a.x - rdiv64(dx * t, SCALE), y: a.y - rdiv64(dy * t, SCALE) }
}

/// The interpolation parameter of point `i + 1` out of `n`, in `[0, 1]`.
fn bezier_t(i: u64, n: u64) -> (t: i64)
    requires
        1 <= n <= 9_000_000_000_000u64,
        i < n,
    ensures
        t == spec_bezier_t(i as int, n as int),
        0 <= t <= SCALE,
{
    proof {
        assert((i + 1) * SCALE <= n * SCALE <= 90_000_000_000_000_000i64) by (nonlinear_arith)
            requires
                1 <= n <= 9_000_000_000_000u64,
                i < n,
        ;
        assert(0 <= (i + 1) * SCALE) by (nonlinear_arith);
        lemma_rdiv_monotonic(0, (i + 1) as int * SCALE as int, n as int);
        lemma_rdiv_monotonic((i + 1) as int * SCALE as int, n as int * SCALE as int, n as int);
        lemma_rdiv_exact(0, n as int);
        lemma_rdiv_exact(SCALE as int, n as int);
        assert(0 * n as int == 0 && SCALE as int * n as int == n as int * SCALE as int)
            by (nonlinear_arith);
    }
    let num: u64 = (i + 1) * (SCALE as u64);
    rdiv64(num as i64, n as i64)
}

impl PathBuilder {
    /// Flatten a quadratic bezier from the pen position to `end_point`:
    /// the curve's estimated length times the resolution gives the number
    /// of emitted points, evaluated by repeated interpolation; the pen
    /// ends on the last emitted point. A zero-length control polygon
    /// emits nothing.
    pub fn quadratic_bezier_to(self, end_point: Point, control_point: Point) -> (r: PathBuilder)
        requires
            self.wf(),
            end_point.in_bounds(),
            control_point.in_bounds(),
        ensures
            r.wf(),
            r.points_per_unit == self.points_per_unit,
            r.shapes@ == self.shapes@,
            r.current_shape@ == self.current_shape@ + spec_quad_points(
                self.current_shape@.last(),
                control_point,
                end_point,
                self.points_per_unit as int,
            ),
    {
        let mut b = self;
        let start = b.current_shape[b.current_shape.len() - 1];
        let len: i64 = dist(start, control_point) + dist(control_point, end_point);
        let n = bezier_count(len, b.points_per_unit);
        let ghost emitted = spec_quad_points(
            start,
            control_point,
            end_point,
            b.points_per_unit as int,
        );
        let ghost base = b.current_shape@;
        let mut i: u64 = 0;
        while i < n
            invariant
                b.points_per_unit == self.points_per_unit,
                b.shapes@ == self.shapes@,
                self.wf(),
                b.wf(),
                start.in_bounds(),
                control_point.in_bounds(),
                end_point.in_bounds(),
                i <= n,
                n as int == spec_bezier_count(
                    self.points_per_unit as int,
                    spec_dist(start, control_point) + spec_dist(control_point, end_point),
                ),
                n <= 9_000_000_000_000u64,
                emitted == spec_quad_points(
                    start,
                    control_point,
                    end_point,
                    self.points_per_unit as int,
                ),
                emitted.len() == n,
                b.current_shape@ == base + emitted.take(i as int),
            decreases n - i,
        {
            let t = bezier_t(i, n);
            let p = lerp(lerp(start, control_point, t), lerp(control_point, end_point, t), t);
            b.current_shape.push(p);
            i += 1;
            proof {
                assert(b.current_shape@ =~= base + emitted.take(i as int));
            }
        }
        proof {
            assert(emitted.take(n as int) =~= emitted);
        }
        b
    }

    /// Flatten a cubic bezier from the pen position to `end_point`, in the
    /// same way as the quadratic one.
    pub fn cubic_bezier_to(
        self,
        end_point: Point,
        control_point_0: Point,
        control_point_1: Point,
    ) -> (r: PathBuilder)
        requires
            self.wf(),
            end_point.in_bounds(),
            control_point_0.in_bounds(),
            control_point_1.in_bounds(),
        ensures
            r.wf(),
            r.points_per_unit == self.points_per_unit,
            r.shapes@ == self.shapes@,
            r.current_shape@ == self.current_shape@ + spec_cubic_points(
                self.current_shape@.last(),
                control_point_0,
                control_point_1,
                end_point,
                self.points_per_unit as int,
            ),
    {
        let mut b = self;
        let start = b.current_shape[b.current_shape.len() - 1];
        let len: i64 = dist(start, control_point_0) + dist(control_point_0, control_point_1)
            + dist(control_point_1, end_point);
        let n = bezier_count(len, b.points_per_unit);
        let ghost emitted = spec_cubic_points(
            start,
            control_point_0,
            control_point_1,
            end_point,
            b.points_per_unit as int,
        );
        let ghost base = b.current_shape@;
        let mut i: u64 = 0;
        while i < n
            invariant
                b.points_per_unit == self.points_per_unit,
                b.shapes@ == self.shapes@,
                self.wf(),
                b.wf(),
                start.in_bounds(),
                control_point_0.in_bounds(),
                control_point_1.in_bounds(),
                end_point.in_bounds(),
                i <= n,
                n <= 9_000_000_000_000u64,
                emitted == spec_cubic_points(
                    start,
                    control_point_0,
                    control_point_1,
                    end_point,
                    self.points_per_unit as int,
                ),
                emitted.len() == n,
                b.current_shape@ == base + emitted.take(i as int),
            decreases n - i,
        {
            let t = bezier_t(i, n);
            let a = lerp(start, control_point_0, t);
            let m = lerp(control_point_0, control_point_1, t);
            let c = lerp(control_point_1, end_point, t);
            let p = lerp(lerp(a, m, t), lerp(m, c, t), t);
            b.current_shape.push(p);
            i += 1;
            proof {
                assert(b.current_shape@ =~= base + emitted.take(i as int));
            }
        }
        proof {
            assert(emitted.take(n as int) =~= emitted);
        }
        b
    }
}

/// The runs that survive the world-space entry point, in order, each
/// already deduplicated: a run is dropped when collapsing its adjacent
/// duplicates leaves one point or less.
pub open spec fn spec_surviving_runs(runs: Seq<Seq<Point>>) -> Seq<Seq<Point>>
    decreases runs.len(),
{
    if runs.len() == 0 {
        Seq::empty()
    } else {
        let init = spec_surviving_runs(runs.drop_last());
        if spec_dedup(runs.last()).len() > 1 {
            init.push(spec_dedup(runs.last()))
        } else {
            init
        }
    }
}

/// The runs that survive the absolute entry point, in order: a run of one
/// point or less is dropped, the others are kept as given.
pub open spec fn spec_surviving_runs_absolute(runs: Seq<Seq<Point>>) -> Seq<Seq<Point>>
    decreases runs.len(),
{
    if runs.len() == 0 {
        Seq::empty()
    } else {
        let init = spec_surviving_runs_absolute(runs.drop_last());
        if runs.last().len() > 1 {
            init.push(runs.last())
        } else {
            init
        }
    }
}

/// Every run handed to the world-space entry point in order, on top of a
/// shape list that held `base`: one stroke-only shape per surviving run,
/// its points the deduplicated run mapped to world space.
pub open spec fn spec_stroke_runs_appended(
    cam: Canvas,
    base: Seq<Shape>,
    new: Seq<Shape>,
    runs: Seq<Seq<Point>>,
    stroke: Option<Stroke>,
) -> bool {
    let surv = spec_surviving_runs(runs);
    &&& new.len() == base.len() + surv.len()
    &&& forall|i: int| 0 <= i < base.len() ==> new[i] == base[i]
    &&& forall|k: int|
        0 <= k < surv.len() ==> {
            &&& (#[trigger] new[base.len() + k]).points@ == surv[k].map_values(
                |q: Point| spec_to_world_pt(cam, q),
            )
            &&& new[base.len() + k].stroke == stroke
            &&& new[base.len() + k].fill is None
        }
}

/// Every run handed to the absolute entry point in order, on top of a
/// shape list that held `base`.
pub open spec fn spec_stroke_runs_appended_absolute(
    base: Seq<Shape>,
    new: Seq<Shape>,
    runs: Seq<Seq<Point>>,
    stroke: Option<Stroke>,
) -> bool {
    let surv = spec_surviving_runs_absolute(runs);
    &&& new.len() == base.len() + surv.len()
    &&& forall|i: int| 0 <= i < base.len() ==> new[i] == base[i]
    &&& forall|k: int|
        0 <= k < surv.len() ==> {
            &&& (#[trigger] new[base.len() + k]).points@ == surv[k]
            &&& new[base.len() + k].stroke == stroke
            &&& new[base.len() + k].fill is None
        }
}

proof fn lemma_stroke_runs_step(
    cam: Canvas,
    base: Seq<Shape>,
    prevs: Seq<Shape>,
    news: Seq<Shape>,
    runs: Seq<Seq<Point>>,
    stroke: Option<Stroke>,
)
    requires
        runs.len() >= 1,
        spec_stroke_runs_appended(cam, base, prevs, runs.drop_last(), stroke),
        spec_shapes_appended(cam, prevs, news, runs.last(), stroke, None),
    ensures
        spec_stroke_runs_appended(cam, base, news, runs, stroke),
{
    let surv0 = spec_surviving_runs(runs.drop_last());
    let surv = spec_surviving_runs(runs);
    let ded = spec_dedup(runs.last());
    if ded.len() > 1 {
        assert(surv == surv0.push(ded));
        assert forall|k: int|
            0 <= k < surv.len() implies {
                &&& (#[trigger] news[base.len() + k]).points@ == surv[k].map_values(
                    |q: Point| spec_to_world_pt(cam, q),
                )
                &&& news[base.len() + k].stroke == stroke
                &&& news[base.len() + k].fill is None
            } by {
            if k < surv0.len() {
                assert(news[base.len() + k] == prevs[base.len() + k]);
                assert(surv[k] == surv0[k]);
            } else {
                assert(base.len() + k == news.len() - 1);
                assert(news[base.len() + k] == news.last());
                assert(surv[k] == ded);
            }
        }
        assert forall|i: int| 0 <= i < base.len() implies news[i] == base[i] by {
            assert(news[i] == prevs[i]);
        }
    } else {
        assert(news == prevs);
        assert(surv == surv0);
    }
}

proof fn lemma_stroke_runs_step_absolute(
    base: Seq<Shape>,
    prevs: Seq<Shape>,
    news: Seq<Shape>,
    runs: Seq<Seq<Point>>,
    stroke: Option<Stroke>,
)
    requires
        runs.len() >= 1,
        spec_stroke_runs_appended_absolute(base, prevs, runs.drop_last(), stroke),
        spec_shapes_appended_absolute(prevs, news, runs.last(), stroke, None),
    ensures
        spec_stroke_runs_appended_absolute(base, news, runs, stroke),
{
    let surv0 = spec_surviving_runs_absolute(runs.drop_last());
    let surv = spec_surviving_runs_absolute(runs);
    if runs.last().len() > 1 {
        assert(surv == surv0.push(runs.last()));
        assert forall|k: int|
            0 <= k < surv.len() implies {
                &&& (#[trigger] news[base.len() + k]).points@ == surv[k]
                &&& news[base.len() + k].stroke == stroke
                &&& news[base.len() + k].fill is None
            } by {
            if k < surv0.len() {
                assert(news[base.len() + k] == prevs[base.len() + k]);
                assert(surv[k] == surv0[k]);
            } else {
                assert(base.len() + k == news.len() - 1);
                assert(news[base.len() + k] == news.last());
                assert(surv[k] == runs.last());
            }
        }
        assert forall|i: int| 0 <= i < base.len() implies news[i] == base[i] by {
            assert(news[i] == prevs[i]);
        }
    } else {
        assert(news == prevs);
        assert(surv == surv0);
    }
}

/// All runs joined into one point sequence, in order.
pub open spec fn spec_concat_runs(runs: Seq<Seq<Point>>) -> Seq<Point>
    decreases runs.len(),
{
    if runs.len() == 0 {
        Seq::empty()
    } else {
        spec_concat_runs(runs.drop_last()) + runs.last()
    }
}

/// The point-run sequence a builder holds when it is finished: its
/// archived runs followed by the in-progress one.
pub open spec fn spec_builder_runs(b: PathBuilder) -> Seq<Seq<Point>> {
    b.shapes@.push(b.current_shape).map_values(|v: Vec<Point>| v@)
}

/// What building a path does to a canvas: when a fill is given, one shape
/// holding every run's points joined together is drawn first with the fill
/// alone (so the fill spans disjoint runs); then every run is drawn as its
/// own shape with the stroke alone (so the stroke never bridges pen
/// lifts). All drawing goes through the given entry point, which drops
/// degenerate runs.
pub open spec fn spec_build_effect(
    oldc: Canvas,
    newc: Canvas,
    b: PathBuilder,
    stroke: Option<Stroke>,
    fill: Option<Color>,
) -> bool {
    spec_runs_build_effect(oldc, newc, spec_builder_runs(b), stroke, fill)
}

/// [`spec_build_effect`] in terms of the bare point runs.
pub open spec fn spec_runs_build_effect(
    oldc: Canvas,
    newc: Canvas,
    runs: Seq<Seq<Point>>,
    stroke: Option<Stroke>,
    fill: Option<Color>,
) -> bool {
    let base = oldc.shapes@;
    let ded_fill = spec_dedup(spec_concat_runs(runs));
    let nfill: int = if fill is Some && ded_fill.len() > 1 {
        1int
    } else {
        0int
    };
    &&& newc.shapes@.len() >= base.len() + nfill
    &&& forall|i: int| 0 <= i < base.len() ==> newc.shapes@[i] == base[i]
    &&& (nfill == 1 ==> {
        let s = newc.shapes@[base.len() as int];
        &&& s.points@ == ded_fill.map_values(|q: Point| spec_to_world_pt(oldc, q))
        &&& s.stroke is None
        &&& s.fill == fill
    })
    &&& spec_stroke_runs_appended(
        oldc,
        newc.shapes@.take(base.len() + nfill),
        newc.shapes@,
        runs,
        stroke,
    )
}

/// The absolute form of [`spec_build_effect`].
pub open spec fn spec_build_effect_absolute(
    oldc: Canvas,
    newc: Canvas,
    b: PathBuilder,
    stroke: Option<Stroke>,
    fill: Option<Color>,
) -> bool {
    spec_runs_build_effect_absolute(oldc, newc, spec_builder_runs(b), stroke, fill)
}

/// [`spec_build_effect_absolute`] in terms of the bare point runs.
pub open spec fn spec_runs_build_effect_absolute(
    oldc: Canvas,
    newc: Canvas,
    runs: Seq<Seq<Point>>,
    stroke: Option<Stroke>,
    fill: Option<Color>,
) -> bool {
    let base = oldc.shapes@;
    let cat = spec_concat_runs(runs);
    let nfill: int = if fill is Some && cat.len() > 1 {
        1int
    } else {
        0int
    };
    &&& newc.shapes@.len() >= base.len() + nfill
    &&& forall|i: int| 0 <= i < base.len() ==> newc.shapes@[i] == base[i]
    &&& (nfill == 1 ==> {
        let s = newc.shapes@[base.len() as int];
        &&& s.points@ == cat
        &&& s.stroke is None
        &&& s.fill == fill
    })
    &&& spec_stroke_runs_appended_absolute(
        newc.shapes@.take(base.len() + nfill),
        newc.shapes@,
        runs,
        stroke,
    )
}

/// A copy of one run, made point by point.
fn copy_run(run: &Vec<Point>) -> (out: Vec<Point>)
    ensures
        out@ == run@,
{
    let mut out: Vec<Point> = Vec::new();
    let mut j: usize = 0;
    while j < run.len()
        invariant
            j <= run@.len(),
            out@ == run@.take(j as int),
        decreases run@.len() - j,
    {
        out.push(run[j]);
        j += 1;
        proof {
            assert(out@ =~= run@.take(j as int));
        }
    }
    proof {
        assert(run@.take(run@.len() as int) =~= run@);
    }
    out
}

impl PathBuilder {
    /// Hand the finished path to a canvas through the world-space entry
    /// point: one concatenated fill shape, then one stroke shape per run.
    pub fn build(self, stroke: Option<Stroke>, fill: Option<Color>, canvas: &mut Canvas)
        requires
            self.wf(),
            old(canvas).wf(),
        ensures
            final(canvas).wf(),
            camera_eq(*old(canvas), *final(canvas)),
            spec_build_effect(*old(canvas), *final(canvas), self, stroke, fill),
    {
        let ghost oldc = *canvas;
        let PathBuilder { points_per_unit: _, mut shapes, current_shape } = self;
        shapes.push(current_shape);
        let ghost runs = spec_builder_runs(self);
        proof {
            assert(shapes@.map_values(|v: Vec<Point>| v@) =~= runs);
            assert(forall|i: int, j: int|
                0 <= i < runs.len() && 0 <= j < runs[i].len() ==> (#[trigger] runs[i][j])
                    .in_bounds()) by {
                assert(forall|i: int| 0 <= i < shapes@.len() ==> runs[i] == shapes@[i]@);
            }
        }
        if let Some(f) = fill {
            let mut fill_pts: Vec<Point> = Vec::new();
            let mut i: usize = 0;
            while i < shapes.len()
                invariant
                    i <= shapes@.len(),
                    runs == shapes@.map_values(|v: Vec<Point>| v@),
                    fill_pts@ == spec_concat_runs(runs.take(i as int)),
                    forall|k: int, j: int|
                        0 <= k < runs.len() && 0 <= j < runs[k].len() ==> (#[trigger] runs[k][j])
                            .in_bounds(),
                    forall|j: int|
                        0 <= j < fill_pts@.len() ==> (#[trigger] fill_pts@[j]).in_bounds(),
                decreases shapes@.len() - i,
            {
                let run = &shapes[i];
                let mut j: usize = 0;
                while j < run.len()
                    invariant
                        0 <= i < shapes@.len(),
                        j <= run@.len(),
                        run == &shapes[i as int],
                        runs == shapes@.map_values(|v: Vec<Point>| v@),
                        fill_pts@ == spec_concat_runs(runs.take(i as int)) + runs[i as int].take(
                            j as int,
                        ),
                        forall|k: int, jj: int|
                            0 <= k < runs.len() && 0 <= jj < runs[k].len() ==> (
                            #[trigger] runs[k][jj]).in_bounds(),
                        forall|jj: int|
                            0 <= jj < fill_pts@.len() ==> (#[trigger] fill_pts@[jj]).in_bounds(),
                    decreases run@.len() - j,
                {
                    fill_pts.push(run[j]);
                    j += 1;
                    proof {
                        assert(fill_pts@ =~= spec_concat_runs(runs.take(i as int))
                            + runs[i as int].take(j as int));
                    }
                }
                i += 1;
                proof {
                    assert(runs.take(i as int).drop_last() =~= runs.take(i as int - 1));
                    assert(runs[i as int - 1].take(runs[i as int - 1].len() as int) =~= runs[i
                        as int - 1]);
                    assert(fill_pts@ =~= spec_concat_runs(runs.take(i as int)));
                }
            }
            proof {
                assert(runs.take(runs.len() as int) =~= runs);
            }
            canvas.draw_shape(fill_pts, None, Some(f));
        }
        let ghost mid = canvas.shapes@;
        let mut k: usize = 0;
        while k < shapes.len()
            invariant
                k <= shapes@.len(),
                runs == shapes@.map_values(|v: Vec<Point>| v@),
                canvas.wf(),
                camera_eq(oldc, *canvas),
                forall|i: int, j: int|
                    0 <= i < runs.len() && 0 <= j < runs[i].len() ==> (#[trigger] runs[i][j])
                        .in_bounds(),
                spec_stroke_runs_appended(oldc, mid, canvas.shapes@, runs.take(k as int), stroke),
            decreases shapes@.len() - k,
        {
            let run = copy_run(&shapes[k]);
            proof {
                assert(runs[k as int] == shapes@[k as int]@);
                assert forall|j: int| 0 <= j < run@.len() implies (#[trigger] run@[j]).in_bounds()
                by {
                    assert(run@[j] == runs[k as int][j]);
                }
            }
            let ghost prev = *canvas;
            canvas.draw_shape(run, stroke, None);
            k += 1;
            proof {
                assert(runs.take(k as int).drop_last() =~= runs.take(k as int - 1));
                let ded = spec_dedup(runs[k as int - 1]);
                assert forall|x: int| 0 <= x < ded.len() implies #[trigger] spec_to_world_pt(
                    oldc,
                    ded[x],
                ) == spec_to_world_pt(prev, ded[x]) by {}
                assert(ded.map_values(|q: Point| spec_to_world_pt(oldc, q)) =~= ded.map_values(
                    |q: Point| spec_to_world_pt(prev, q),
                ));
                assert(spec_shapes_appended(oldc, prev.shapes@, canvas.shapes@,
                    runs[k as int - 1], stroke, None));
                assert(runs.take(k as int).last() == runs[k as int - 1]);
                lemma_stroke_runs_step(oldc, mid, prev.shapes@, canvas.shapes@,
                    runs.take(k as int), stroke);
            }
        }
        proof {
            assert(runs.take(runs.len() as int) =~= runs);
            assert(spec_stroke_runs_appended(oldc, mid, canvas.shapes@, runs, stroke));
            let base = oldc.shapes@;
            let ded_fill = spec_dedup(spec_concat_runs(runs));
            let nfill: int = if fill is Some && ded_fill.len() > 1 {
                1int
            } else {
                0int
            };
            assert(mid.len() == base.len() + nfill);
            assert(canvas.shapes@.take(base.len() + nfill) =~= mid);
        }
    }

    /// Hand the finished path to a canvas through the absolute entry
    /// point: one concatenated fill shape, then one stroke shape per run.
    pub fn build_absolute(self, stroke: Option<Stroke>, fill: Option<Color>, canvas: &mut Canvas)
        requires
            self.wf(),
            old(canvas).wf(),
        ensures
            final(canvas).wf(),
            camera_eq(*old(canvas), *final(canvas)),
            spec_build_effect_absolute(*old(canvas), *final(canvas), self, stroke, fill),
    {
        let ghost oldc = *canvas;
        let PathBuilder { points_per_unit: _, mut shapes, current_shape } = self;
        shapes.push(current_shape);
        let ghost runs = spec_builder_runs(self);
        proof {
            assert(shapes@.map_values(|v: Vec<Point>| v@) =~= runs);
        }
        if let Some(f) = fill {
            let mut fill_pts: Vec<Point> = Vec::new();
            let mut i: usize = 0;
            while i < shapes.len()
                invariant
                    i <= shapes@.len(),
                    runs == shapes@.map_values(|v: Vec<Point>| v@),
                    fill_pts@ == spec_concat_runs(runs.take(i as int)),
                decreases shapes@.len() - i,
            {
                let run = &shapes[i];
                let mut j: usize = 0;
                while j < run.len()
                    invariant
                        0 <= i < shapes@.len(),
                        j <= run@.len(),
                        run == &shapes[i as int],
                        runs == shapes@.map_values(|v: Vec<Point>| v@),
                        fill_pts@ == spec_concat_runs(runs.take(i as int)) + runs[i as int].take(
                            j as int,
                        ),
                    decreases run@.len() - j,
                {
                    fill_pts.push(run[j]);
                    j += 1;
                    proof {
                        assert(fill_pts@ =~= spec_concat_runs(runs.take(i as int))
                            + runs[i as int].take(j as int));
                    }
                }
                i += 1;
                proof {
                    assert(runs.take(i as int).drop_last() =~= runs.take(i as int - 1));
                    assert(runs[i as int - 1].take(runs[i as int - 1].len() as int) =~= runs[i
                        as int - 1]);
                    assert(fill_pts@ =~= spec_concat_runs(runs.take(i as int)));
                }
            }
            proof {
                assert(runs.take(runs.len() as int) =~= runs);
            }
            canvas.draw_shape_absolute(fill_pts, None, Some(f));
        }
        let ghost mid = canvas.shapes@;
        let mut k: usize = 0;
        while k < shapes.len()
            invariant
                k <= shapes@.len(),
                runs == shapes@.map_values(|v: Vec<Point>| v@),
                canvas.wf(),
                camera_eq(oldc, *canvas),
                spec_stroke_runs_appended_absolute(mid, canvas.shapes@, runs.take(k as int), stroke),
            decreases shapes@.len() - k,
        {
            let run = copy_run(&shapes[k]);
            proof {
                assert(runs[k as int] == shapes@[k as int]@);
            }
            let ghost prev = *canvas;
            canvas.draw_shape_absolute(run, stroke, None);
            k += 1;
            proof {
                assert(runs.take(k as int).drop_last() =~= runs.take(k as int - 1));
                assert(spec_shapes_appended_absolute(prev.shapes@, canvas.shapes@,
                    runs[k as int - 1], stroke, None));
                assert(runs.take(k as int).last() == runs[k as int - 1]);
                lemma_stroke_runs_step_absolute(mid, prev.shapes@, canvas.shapes@,
                    runs.take(k as int), stroke);
            }
        }
        proof {
            assert(runs.take(runs.len() as int) =~= runs);
            assert(spec_stroke_runs_appended_absolute(mid, canvas.shapes@, runs, stroke));
            let base = oldc.shapes@;
            let cat = spec_concat_runs(runs);
            let nfill: int = if fill is Some && cat.len() > 1 {
                1int
            } else {
                0int
            };
            assert(mid.len() == base.len() + nfill);
            assert(canvas.shapes@.take(base.len() + nfill) =~= mid);
        }
    }
}

/// How many points a curve of the given control-polygon length is
/// flattened to.
fn bezier_count(len: i64, ppu: usize) -> (n: u64)
    requires
        0 <= len <= 90_000_000,
        ppu <= PPU_LIMIT,
    ensures
        n as int == spec_bezier_count(ppu as int, len as int),
        n <= 9_000_000_000_000u64,
{
    proof {
        assert(0 <= len * ppu <= 90_000_000_000_000_000i64) by (nonlinear_arith)
            requires
                0 <= len <= 90_000_000,
                0 <= ppu <= PPU_LIMIT,
        ;
    }
    let num: u64 = (len as u64) * (ppu as u64);
    let n: u64 = num / (SCALE as u64);
    proof {
        assert(spec_bezier_count(ppu as int, len as int) == len * ppu / (SCALE as int));
        assert(len as int * ppu as int == ppu as int * len as int) by (nonlinear_arith);
    }
    n
}

} // verus!
