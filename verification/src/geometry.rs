//! Points, angles and fixed-point trigonometry.
//!
//! Angles are fixed-point radians (raw units of `1/SCALE` radians). The unit
//! vector of an angle is computed by quadrant reduction followed by a short
//! Taylor expansion, then audited onto the unit circle; the computation
//! itself is the specification, so every caller's contract pins the exact
//! value produced, and the audit guarantees the pair's norm (see
//! [`lemma_unit_vec_norm`]), from which vertex distances of generated
//! polygons are proved.

use vstd::prelude::*;
use vstd::arithmetic::div_mod::lemma_fundamental_div_mod;
use crate::num::{
    SCALE, COORD_LIMIT, rdiv, clamp_spec, rdiv64, fmul, clamp64, isqrt, div_floor,
    lemma_rdiv_monotonic, lemma_rdiv_exact, lemma_fmul_unit_bound,
};

verus! {

/// One full turn, in raw angle units (`2 * pi * SCALE`, rounded).
pub const TAU: i64 = 62832;

/// A quarter turn, in raw angle units (`pi / 2 * SCALE`, rounded).
pub const HALF_PI: i64 = 15708;

/// Half a turn, in raw angle units (`pi * SCALE`, rounded).
pub const PI_FX: i64 = 31416;

/// Largest angle magnitude, in raw units, accepted by the trigonometric
/// entry points.
pub const ANGLE_LIMIT: i64 = 1_100_000_000_000;

/// Largest rotation magnitude, in raw units, accepted by the polygon
/// generators (one full turn below [`ANGLE_LIMIT`]).
pub const ROT_LIMIT: i64 = 1_000_000_000_000;

/// A 2D point; both coordinates are fixed-point scalars.
#[derive(Clone, Copy, Debug, PartialEq, Eq, Structural)]
pub struct Point {
    /// Horizontal coordinate, in raw units.
    pub x: i64,
    /// Vertical coordinate, in raw units.
    pub y: i64,
}

impl Point {
    /// Both coordinates lie within the window the camera accepts.
    pub open spec fn in_bounds(self) -> bool {
        &&& -COORD_LIMIT <= self.x <= COORD_LIMIT
        &&& -COORD_LIMIT <= self.y <= COORD_LIMIT
    }

    /// Create a point from its two coordinates.
    pub fn new(x: i64, y: i64) -> (p: Point)
        ensures
            p == (Point { x, y }),
    {
        Point { x, y }
    }

    /// The origin.
    pub fn zero() -> (p: Point)
        ensures
            p == (Point { x: 0i64, y: 0i64 }),
    {
        Point { x: 0, y: 0 }
    }

    /// Componentwise sum.
    pub fn add(self, o: Point) -> (r: Point)
        requires
            i64::MIN <= self.x + o.x <= i64::MAX,
            i64::MIN <= self.y + o.y <= i64::MAX,
        ensures
            r.x == self.x + o.x,
            r.y == self.y + o.y,
    {
        Point { x: self.x + o.x, y: self.y + o.y }
    }

    /// Componentwise difference.
    pub fn sub(self, o: Point) -> (r: Point)
        requires
            i64::MIN <= self.x - o.x <= i64::MAX,
            i64::MIN <= self.y - o.y <= i64::MAX,
        ensures
            r.x == self.x - o.x,
            r.y == self.y - o.y,
    {
        Point { x: self.x - o.x, y: self.y - o.y }
    }

    /// The point rotated counter-clockwise around the origin.
    pub fn rotate(self, radians: i64) -> (r: Point)
        requires
            self.in_bounds(),
            -ANGLE_LIMIT <= radians <= ANGLE_LIMIT,
        ensures
            r.x == spec_rotate_x(self, radians as int),
            r.y == spec_rotate_y(self, radians as int),
    {
        let (c, s) = unit_vec(radians);
        proof {
            assert(-COORD_LIMIT * SCALE <= self.x * c <= COORD_LIMIT * SCALE
                && -COORD_LIMIT * SCALE <= self.y * s <= COORD_LIMIT * SCALE
                && -COORD_LIMIT * SCALE <= self.x * s <= COORD_LIMIT * SCALE
                && -COORD_LIMIT * SCALE <= self.y * c <= COORD_LIMIT * SCALE)
                by (nonlinear_arith)
                requires
                    -COORD_LIMIT <= self.x <= COORD_LIMIT,
                    -COORD_LIMIT <= self.y <= COORD_LIMIT,
                    -SCALE <= c <= SCALE,
                    -SCALE <= s <= SCALE,
            ;
        }
        Point {
            x: rdiv64(self.x * c - self.y * s, SCALE),
            y: rdiv64(self.x * s + self.y * c, SCALE),
        }
    }
}

/// Horizontal coordinate of `p` rotated counter-clockwise by `a` raw radians.
pub open spec fn spec_rotate_x(p: Point, a: int) -> int {
    rdiv(p.x * spec_unit_vec(a).0 - p.y * spec_unit_vec(a).1, SCALE as int)
}

/// Vertical coordinate of `p` rotated counter-clockwise by `a` raw radians.
pub open spec fn spec_rotate_y(p: Point, a: int) -> int {
    rdiv(p.x * spec_unit_vec(a).1 + p.y * spec_unit_vec(a).0, SCALE as int)
}

/// Taylor cosine on a reduced argument (at most an eighth of a turn),
/// clamped into one unit.
pub open spec fn spec_cos_small(x: int) -> int {
    let x2 = rdiv(x * x, SCALE as int);
    let x4 = rdiv(x2 * x2, SCALE as int);
    let x6 = rdiv(x4 * x2, SCALE as int);
    clamp_spec(
        SCALE as int - rdiv(x2, 2) + rdiv(x4, 24) - rdiv(x6, 720),
        -SCALE as int,
        SCALE as int,
    )
}

/// Taylor sine on a reduced argument, clamped into one unit.
pub open spec fn spec_sin_small(x: int) -> int {
    let x2 = rdiv(x * x, SCALE as int);
    let x3 = rdiv(x2 * x, SCALE as int);
    let x4 = rdiv(x2 * x2, SCALE as int);
    let x5 = rdiv(x4 * x, SCALE as int);
    clamp_spec(x - rdiv(x3, 6) + rdiv(x5, 120), -SCALE as int, SCALE as int)
}

/// The pair lies on the unit circle up to three raw units, each component
/// within one unit.
pub open spec fn spec_unit_norm_ok(c: int, s: int) -> bool {
    &&& (SCALE - 3) * (SCALE - 3) <= c * c + s * s <= (SCALE + 3) * (SCALE + 3)
    &&& -SCALE <= c <= SCALE
    &&& -SCALE <= s <= SCALE
}

/// A cosine/sine pair audited onto the unit circle: a pair already within
/// three raw units of it is kept; any other is rescaled by its own norm
/// and clamped into one unit per component; and a pair that still cannot
/// be brought near the circle — the Taylor expansions produce none such —
/// collapses to the horizontal unit vector. Every result satisfies
/// [`spec_unit_norm_ok`].
pub open spec fn spec_audit_unit(c: int, s: int) -> (int, int) {
    if spec_unit_norm_ok(c, s) {
        (c, s)
    } else {
        let r = sqrt_floor((c * c + s * s) as nat) as int;
        if r == 0 {
            (SCALE as int, 0int)
        } else {
            let c2 = clamp_spec(rdiv(c * SCALE, r), -SCALE as int, SCALE as int);
            let s2 = clamp_spec(rdiv(s * SCALE, r), -SCALE as int, SCALE as int);
            if spec_unit_norm_ok(c2, s2) {
                (c2, s2)
            } else {
                (SCALE as int, 0int)
            }
        }
    }
}

/// The unit vector `(cos a, sin a)` of an angle, in raw units: quadrant
/// reduction of `a` modulo a full turn, the Taylor expansions above, and
/// the audit keeping the pair on the unit circle.
pub open spec fn spec_unit_vec(a: int) -> (int, int) {
    let r = a % (TAU as int);
    let k = rdiv(r, HALF_PI as int);
    let x = r - k * HALF_PI as int;
    let u = spec_audit_unit(spec_cos_small(x), spec_sin_small(x));
    if k == 0 || k == 4 {
        (u.0, u.1)
    } else if k == 1 {
        (-u.1, u.0)
    } else if k == 2 {
        (-u.0, -u.1)
    } else {
        (u.1, -u.0)
    }
}

/// The unit vector of every angle lies on the unit circle up to three raw
/// units: its squared norm is between `(SCALE - 3)^2` and `(SCALE + 3)^2`.
pub proof fn lemma_unit_vec_norm(a: int)
    ensures
        spec_unit_norm_ok(spec_unit_vec(a).0, spec_unit_vec(a).1),
{
    let r = a % (TAU as int);
    let k = rdiv(r, HALF_PI as int);
    let x = r - k * HALF_PI as int;
    let u = spec_audit_unit(spec_cos_small(x), spec_sin_small(x));
    lemma_audit_unit_norm(spec_cos_small(x), spec_sin_small(x));
    assert((-u.1) * (-u.1) + u.0 * u.0 == u.0 * u.0 + u.1 * u.1) by (nonlinear_arith);
    assert((-u.0) * (-u.0) + (-u.1) * (-u.1) == u.0 * u.0 + u.1 * u.1) by (nonlinear_arith);
    assert(u.1 * u.1 + (-u.0) * (-u.0) == u.0 * u.0 + u.1 * u.1) by (nonlinear_arith);
}

/// Every audited pair satisfies the norm window.
proof fn lemma_audit_unit_norm(c: int, s: int)
    ensures
        spec_unit_norm_ok(spec_audit_unit(c, s).0, spec_audit_unit(c, s).1),
{
    if !spec_unit_norm_ok(c, s) {
        let r = sqrt_floor((c * c + s * s) as nat) as int;
        if r != 0 {
            let c2 = clamp_spec(rdiv(c * SCALE, r), -SCALE as int, SCALE as int);
            let s2 = clamp_spec(rdiv(s * SCALE, r), -SCALE as int, SCALE as int);
            if !spec_unit_norm_ok(c2, s2) {
                assert((SCALE - 3) * (SCALE - 3) <= SCALE * SCALE + 0 * 0 <= (SCALE + 3) * (SCALE
                    + 3)) by (nonlinear_arith);
            }
        } else {
            assert((SCALE - 3) * (SCALE - 3) <= SCALE * SCALE + 0 * 0 <= (SCALE + 3) * (SCALE + 3))
                by (nonlinear_arith);
        }
    }
}

fn cos_small(x: i64) -> (c: i64)
    requires
        -7854 <= x <= 7854,
    ensures
        c == spec_cos_small(x as int),
        -SCALE <= c <= SCALE,
{
    let x2 = fmul(x, x);
    proof {
        assert(0 <= x * x <= 61_700_000) by (nonlinear_arith)
            requires
                -7854 <= x <= 7854,
        ;
    }
    let x4 = fmul(x2, x2);
    proof {
        assert(0 <= x2 * x2 <= 39_000_000i64) by (nonlinear_arith)
            requires
                0 <= x2 <= 6171,
        ;
    }
    let x6 = fmul(x4, x2);
    proof {
        assert(0 <= x4 * x2 <= 25_000_000i64) by (nonlinear_arith)
            requires
                0 <= x4 <= 3901,
                0 <= x2 <= 6171,
        ;
    }
    let t2 = rdiv64(x2, 2);
    let t4 = rdiv64(x4, 24);
    let t6 = rdiv64(x6, 720);
    clamp64(SCALE - t2 + t4 - t6, -SCALE, SCALE)
}

fn sin_small(x: i64) -> (s: i64)
    requires
        -7854 <= x <= 7854,
    ensures
        s == spec_sin_small(x as int),
        -SCALE <= s <= SCALE,
{
    let x2 = fmul(x, x);
    proof {
        assert(0 <= x * x <= 61_700_000) by (nonlinear_arith)
            requires
                -7854 <= x <= 7854,
        ;
    }
    let x3 = fmul(x2, x);
    proof {
        assert(-49_000_000i64 <= x2 * x <= 49_000_000i64) by (nonlinear_arith)
            requires
                0 <= x2 <= 6171,
                -7854 <= x <= 7854,
        ;
    }
    let x4 = fmul(x2, x2);
    proof {
        assert(0 <= x2 * x2 <= 39_000_000i64) by (nonlinear_arith)
            requires
                0 <= x2 <= 6171,
        ;
    }
    let x5 = fmul(x4, x);
    proof {
        assert(-31_000_000i64 <= x4 * x <= 31_000_000i64) by (nonlinear_arith)
            requires
                0 <= x4 <= 3901,
                -7854 <= x <= 7854,
        ;
    }
    let t3 = rdiv64(x3, 6);
    let t5 = rdiv64(x5, 120);
    clamp64(x - t3 + t5, -SCALE, SCALE)
}

/// An audited cosine/sine pair (see [`spec_audit_unit`]).
fn audit_unit(c: i64, s: i64) -> (r: (i64, i64))
    requires
        -SCALE <= c <= SCALE,
        -SCALE <= s <= SCALE,
    ensures
        r.0 == spec_audit_unit(c as int, s as int).0,
        r.1 == spec_audit_unit(c as int, s as int).1,
        spec_unit_norm_ok(r.0 as int, r.1 as int),
{
    proof {
        lemma_audit_unit_norm(c as int, s as int);
        assert(0 <= c * c <= SCALE * SCALE && 0 <= s * s <= SCALE * SCALE) by (nonlinear_arith)
            requires
                -SCALE <= c <= SCALE,
                -SCALE <= s <= SCALE,
        ;
    }
    let n2: i64 = c * c + s * s;
    if (SCALE - 3) * (SCALE - 3) <= n2 && n2 <= (SCALE + 3) * (SCALE + 3) {
        return (c, s);
    }
    let rt = isqrt(n2 as u64);
    proof {
        lemma_sqrt_floor_unique((n2 as u64) as nat, rt as int);
        lemma_sqrt_floor_le(n2 as nat, 15000);
    }
    if rt == 0 {
        return (SCALE, 0);
    }
    proof {
        assert(-(SCALE * SCALE) <= c * SCALE <= SCALE * SCALE && -(SCALE * SCALE) <= s * SCALE
            <= SCALE * SCALE) by (nonlinear_arith)
            requires
                -SCALE <= c <= SCALE,
                -SCALE <= s <= SCALE,
        ;
    }
    let c2 = clamp64(rdiv64(c * SCALE, rt as i64), -SCALE, SCALE);
    let s2 = clamp64(rdiv64(s * SCALE, rt as i64), -SCALE, SCALE);
    proof {
        assert(0 <= c2 * c2 <= SCALE * SCALE && 0 <= s2 * s2 <= SCALE * SCALE)
            by (nonlinear_arith)
            requires
                -SCALE <= c2 <= SCALE,
                -SCALE <= s2 <= SCALE,
        ;
    }
    let m2: i64 = c2 * c2 + s2 * s2;
    if (SCALE - 3) * (SCALE - 3) <= m2 && m2 <= (SCALE + 3) * (SCALE + 3) {
        (c2, s2)
    } else {
        (SCALE, 0)
    }
}

/// The unit vector `(cos a, sin a)` of an angle, in raw units; its
/// squared norm always lies in the window of [`spec_unit_norm_ok`].
pub fn unit_vec(a: i64) -> (r: (i64, i64))
    requires
        -ANGLE_LIMIT <= a <= ANGLE_LIMIT,
    ensures
        r.0 == spec_unit_vec(a as int).0,
        r.1 == spec_unit_vec(a as int).1,
        -SCALE <= r.0 <= SCALE,
        -SCALE <= r.1 <= SCALE,
        spec_unit_norm_ok(r.0 as int, r.1 as int),
{
    let q = div_floor(a, TAU);
    proof {
        lemma_fundamental_div_mod(a as int, TAU as int);
    }
    let rr: i64 = a - q * TAU;
    let k = rdiv64(rr, HALF_PI);
    let x: i64 = rr - k * HALF_PI;
    let c0 = cos_small(x);
    let s0 = sin_small(x);
    let (c, s) = audit_unit(c0, s0);
    proof {
        assert((-s) * (-s) + c * c == c * c + s * s) by (nonlinear_arith);
        assert((-c) * (-c) + (-s) * (-s) == c * c + s * s) by (nonlinear_arith);
        assert(s * s + (-c) * (-c) == c * c + s * s) by (nonlinear_arith);
    }
    if k == 0 || k == 4 {
        (c, s)
    } else if k == 1 {
        (-s, c)
    } else if k == 2 {
        (-c, -s)
    } else {
        (s, -c)
    }
}

/// `r * r <= n < (r + 1) * (r + 1)`: `r` is the integer square root of `n`.
pub open spec fn is_sqrt_floor(n: int, r: int) -> bool {
    &&& 0 <= r
    &&& r * r <= n
    &&& n < (r + 1) * (r + 1)
}

/// The integer square root, as a recursive specification.
pub open spec fn sqrt_floor(n: nat) -> nat
    decreases n,
{
    if n == 0 {
        0
    } else {
        let s = sqrt_floor((n - 1) as nat);
        if (s + 1) * (s + 1) <= n {
            s + 1
        } else {
            s
        }
    }
}

proof fn lemma_sqrt_floor_is_sqrt(n: nat)
    ensures
        is_sqrt_floor(n as int, sqrt_floor(n) as int),
    decreases n,
{
    if n > 0 {
        lemma_sqrt_floor_is_sqrt((n - 1) as nat);
        let s = sqrt_floor((n - 1) as nat);
        assert((s + 1) * (s + 1) + 1 <= (s + 2) * (s + 2)) by (nonlinear_arith);
    }
}

/// A value meeting the square-root relation is the integer square root.
pub proof fn lemma_sqrt_floor_unique(n: nat, r: int)
    requires
        is_sqrt_floor(n as int, r),
    ensures
        r == sqrt_floor(n),
{
    lemma_sqrt_floor_is_sqrt(n);
    let s = sqrt_floor(n) as int;
    assert(r == s) by (nonlinear_arith)
        requires
            is_sqrt_floor(n as int, r),
            is_sqrt_floor(n as int, s),
    ;
}

/// The integer square root meets its defining relation.
pub proof fn lemma_sqrt_floor_is_sqrt_pub(n: nat)
    ensures
        is_sqrt_floor(n as int, sqrt_floor(n) as int),
{
    lemma_sqrt_floor_is_sqrt(n);
}

/// The integer square root of a positive number is positive.
pub proof fn lemma_sqrt_floor_pos(n: nat)
    requires
        n >= 1,
    ensures
        sqrt_floor(n) >= 1,
{
    lemma_sqrt_floor_is_sqrt(n);
    let s = sqrt_floor(n) as int;
    assert(s >= 1) by (nonlinear_arith)
        requires
            0 <= s,
            1 <= n,
            n < (s + 1) * (s + 1),
    ;
}

/// An upper bound on the radicand bounds the integer square root.
pub proof fn lemma_sqrt_floor_le(n: nat, m: int)
    requires
        0 <= m,
        n < (m + 1) * (m + 1),
    ensures
        sqrt_floor(n) <= m,
{
    lemma_sqrt_floor_is_sqrt(n);
    let s = sqrt_floor(n) as int;
    assert(s <= m) by (nonlinear_arith)
        requires
            0 <= m,
            0 <= s,
            s * s <= n as int,
            n < (m + 1) * (m + 1),
    ;
}

/// A lower bound on the radicand bounds the integer square root from
/// below.
pub proof fn lemma_sqrt_floor_ge(n: nat, m: int)
    requires
        0 <= m,
        m * m <= n,
    ensures
        sqrt_floor(n) >= m,
{
    lemma_sqrt_floor_is_sqrt(n);
    let s = sqrt_floor(n) as int;
    assert(s >= m) by (nonlinear_arith)
        requires
            0 <= m,
            0 <= s,
            m * m <= n as int,
            n < (s + 1) * (s + 1),
    ;
}

/// The Euclidean distance between two points, in raw units (rounded down).
pub open spec fn spec_dist(a: Point, b: Point) -> int {
    sqrt_floor(((a.x - b.x) * (a.x - b.x) + (a.y - b.y) * (a.y - b.y)) as nat) as int
}

/// The Euclidean distance between two points, in raw units (rounded down).
pub fn dist(a: Point, b: Point) -> (d: i64)
    requires
        a.in_bounds(),
        b.in_bounds(),
    ensures
        d == spec_dist(a, b),
        0 <= d <= 30_000_000,
{
    let dx: i64 = a.x - b.x;
    let dy: i64 = a.y - b.y;
    proof {
        assert(0 <= dx * dx <= 400_000_000_000_000 && 0 <= dy * dy <= 400_000_000_000_000)
            by (nonlinear_arith)
            requires
                -2 * COORD_LIMIT <= dx <= 2 * COORD_LIMIT,
                -2 * COORD_LIMIT <= dy <= 2 * COORD_LIMIT,
        ;
    }
    let n: u64 = (dx * dx + dy * dy) as u64;
    let r = isqrt(n);
    proof {
        assert(is_sqrt_floor(n as int, r as int));
        lemma_sqrt_floor_unique(n as nat, r as int);
        assert(r <= 30_000_000) by (nonlinear_arith)
            requires
                r * r <= n,
                n <= 800_000_000_000_000u64,
        ;
    }
    r as i64
}

/// The distance tolerance of a generated polygon vertex, in raw units:
/// three parts in ten thousand of the radius, plus three raw units of
/// quantization.
pub open spec fn spec_vertex_tol(radius: int) -> int {
    3 * radius / (SCALE as int) + 3
}

/// A point offset from a center by a radius along an audited unit vector
/// lies at that radius from the center, within [`spec_vertex_tol`].
proof fn lemma_vertex_distance(center: Point, radius: int, c: int, s: int, p: Point)
    requires
        0 <= radius <= COORD_LIMIT,
        spec_unit_norm_ok(c, s),
        p.x == center.x + rdiv(radius * c, SCALE as int),
        p.y == center.y + rdiv(radius * s, SCALE as int),
    ensures
        -spec_vertex_tol(radius) <= spec_dist(center, p) - radius <= spec_vertex_tol(radius),
{
    let vx = rdiv(radius * c, SCALE as int);
    let vy = rdiv(radius * s, SCALE as int);
    crate::num::lemma_rdiv_bounds(radius * c, SCALE as int);
    crate::num::lemma_rdiv_bounds(radius * s, SCALE as int);
    let a = SCALE * vx - radius * c;
    let b = SCALE * vy - radius * s;
    assert(-5000 <= a <= 5000 && -5000 <= b <= 5000);
    let dx = center.x - p.x;
    let dy = center.y - p.y;
    assert(dx == -vx && dy == -vy);
    let d2 = dx * dx + dy * dy;
    assert(d2 == vx * vx + vy * vy) by (nonlinear_arith)
        requires
            dx == -vx,
            dy == -vy,
            d2 == dx * dx + dy * dy,
    ;
    let n = c * c + s * s;
    let rc = radius * c;
    let rs = radius * s;
    assert(SCALE * SCALE * d2 == (rc + a) * (rc + a) + (rs + b) * (rs + b)) by (nonlinear_arith)
        requires
            d2 == vx * vx + vy * vy,
            a == SCALE * vx - rc,
            b == SCALE * vy - rs,
    ;
    assert((rc + a) * (rc + a) == rc * rc + 2 * rc * a + a * a) by (nonlinear_arith);
    assert((rs + b) * (rs + b) == rs * rs + 2 * rs * b + b * b) by (nonlinear_arith);
    assert(rc * rc + rs * rs == (radius * radius) * n) by (nonlinear_arith)
        requires
            rc == radius * c,
            rs == radius * s,
            n == c * c + s * s,
    ;
    assert(-(radius * 100_000_000) <= 2 * rc * a <= radius * 100_000_000) by (nonlinear_arith)
        requires
            rc == radius * c,
            -SCALE <= c <= SCALE,
            -5000 <= a <= 5000,
            0 <= radius,
            SCALE == 10000,
    ;
    assert(-(radius * 100_000_000) <= 2 * rs * b <= radius * 100_000_000) by (nonlinear_arith)
        requires
            rs == radius * s,
            -SCALE <= s <= SCALE,
            -5000 <= b <= 5000,
            0 <= radius,
            SCALE == 10000,
    ;
    assert(0 <= a * a <= 25_000_000 && 0 <= b * b <= 25_000_000) by (nonlinear_arith)
        requires
            -5000 <= a <= 5000,
            -5000 <= b <= 5000,
    ;
    let rr = radius * radius;
    assert(rr * n <= rr * ((SCALE + 3) * (SCALE + 3))) by (nonlinear_arith)
        requires
            rr == radius * radius,
            n <= (SCALE + 3) * (SCALE + 3),
    ;
    assert(rr * ((SCALE - 3) * (SCALE - 3)) <= rr * n) by (nonlinear_arith)
        requires
            rr == radius * radius,
            (SCALE - 3) * (SCALE - 3) <= n,
    ;
    assert(SCALE * SCALE * d2 <= rr * ((SCALE + 3) * (SCALE + 3)) + radius * 200_000_000
        + 50_000_000);
    assert(rr * ((SCALE - 3) * (SCALE - 3)) - radius * 200_000_000 <= SCALE * SCALE * d2);
    assert(0 <= d2) by (nonlinear_arith)
        requires
            d2 == vx * vx + vy * vy,
    ;
    let f = 3 * radius / (SCALE as int);
    lemma_fundamental_div_mod(3 * radius, SCALE as int);
    assert(0 <= f && SCALE * f <= 3 * radius && 3 * radius < SCALE * f + SCALE);
    let t = spec_vertex_tol(radius);
    assert(t == f + 3);
    lemma_vertex_d2_upper(d2, radius, rr, f);
    lemma_sqrt_floor_le(d2 as nat, radius + t);
    if radius > t {
        lemma_vertex_d2_lower(d2, radius, rr, f);
        lemma_sqrt_floor_ge(d2 as nat, radius - t);
    }
}

#[verifier::rlimit(100)]
proof fn lemma_vertex_d2_upper(d2: int, radius: int, rr: int, f: int) by (nonlinear_arith)
    requires
        0 <= radius <= 10_000_000,
        rr == radius * radius,
        0 <= d2,
        100_000_000 * d2 <= rr * 100_060_009 + radius * 200_000_000 + 50_000_000,
        0 <= f,
        10000 * f <= 3 * radius,
        3 * radius < 10000 * f + 10000,
    ensures
        d2 < (radius + f + 4) * (radius + f + 4),
{
}

#[verifier::rlimit(100)]
proof fn lemma_vertex_d2_lower(d2: int, radius: int, rr: int, f: int) by (nonlinear_arith)
    requires
        0 <= radius <= 10_000_000,
        rr == radius * radius,
        rr * 99_940_009 - radius * 200_000_000 <= 100_000_000 * d2,
        0 <= f,
        10000 * f <= 3 * radius,
        3 * radius < 10000 * f + 10000,
        f + 3 < radius,
    ensures
        (radius - f - 3) * (radius - f - 3) <= d2,
{
}

/// Every vertex of a generated regular polygon, the closing repeat
/// included, lies at the polygon's radius from its center, within
/// [`spec_vertex_tol`].
pub proof fn lemma_regular_polygon_on_circle(
    center: Point,
    sides: int,
    radius: int,
    rotation: int,
    i: int,
)
    requires
        3 <= sides,
        0 <= radius,
        -COORD_LIMIT <= center.x - radius,
        center.x + radius <= COORD_LIMIT,
        -COORD_LIMIT <= center.y - radius,
        center.y + radius <= COORD_LIMIT,
        0 <= i < sides + 1,
    ensures
        ({
            let p = spec_regular_polygon_points(center, sides, radius, rotation)[i];
            -spec_vertex_tol(radius) <= spec_dist(center, p) - radius <= spec_vertex_tol(radius)
        }),
{
    let j = if i < sides {
        i
    } else {
        0int
    };
    let ang = rdiv(TAU as int * j, sides) + rotation;
    let u = spec_unit_vec(ang);
    lemma_unit_vec_norm(ang);
    lemma_fmul_unit_bound(radius, u.0);
    lemma_fmul_unit_bound(radius, u.1);
    let p = spec_regular_polygon_points(center, sides, radius, rotation)[i];
    assert(p.x == center.x + rdiv(radius * u.0, SCALE as int));
    assert(p.y == center.y + rdiv(radius * u.1, SCALE as int));
    lemma_vertex_distance(center, radius, u.0, u.1, p);
}

/// The `i`th vertex of a regular polygon, before closing: `center` offset by
/// `radius` at angle `2*pi*i/sides + rotation`.
pub open spec fn spec_polygon_vertex(
    center: Point,
    sides: int,
    radius: int,
    rotation: int,
    i: int,
) -> (int, int) {
    let ang = rdiv(TAU as int * i, sides) + rotation;
    (
        center.x + rdiv(radius * spec_unit_vec(ang).0, SCALE as int),
        center.y + rdiv(radius * spec_unit_vec(ang).1, SCALE as int),
    )
}

/// The closed vertex list of a regular polygon: `sides` vertices followed by
/// a repetition of the first one.
pub open spec fn spec_regular_polygon_points(
    center: Point,
    sides: int,
    radius: int,
    rotation: int,
) -> Seq<Point> {
    Seq::new(
        (sides + 1) as nat,
        |i: int|
            {
                let j = if i < sides {
                    i
                } else {
                    0
                };
                let v = spec_polygon_vertex(center, sides, radius, rotation, j);
                Point { x: v.0 as i64, y: v.1 as i64 }
            },
    )
}

/// The closed vertex list of a regular polygon: `sides` equally spaced
/// vertices on the circle of the given center and radius, starting at
/// `rotation` raw radians, with the first vertex repeated at the end to close
/// the outline. Every vertex lies at most `radius` away from the center on
/// each axis.
pub fn regular_polygon_points(center: Point, sides: usize, radius: i64, rotation: i64) -> (pts: Vec<
    Point,
>)
    requires
        3 <= sides <= 1_000_000,
        0 <= radius,
        -COORD_LIMIT <= center.x - radius,
        center.x + radius <= COORD_LIMIT,
        -COORD_LIMIT <= center.y - radius,
        center.y + radius <= COORD_LIMIT,
        -ROT_LIMIT <= rotation <= ROT_LIMIT,
    ensures
        pts@ == spec_regular_polygon_points(center, sides as int, radius as int, rotation as int),
        pts@.len() == sides + 1,
        pts@[0] == pts@[sides as int],
        forall|i: int| 0 <= i < pts@.len() ==> (#[trigger] pts@[i]).in_bounds(),
        forall|i: int|
            0 <= i < pts@.len() ==> -radius <= (#[trigger] pts@[i]).x - center.x <= radius
                && -radius <= pts@[i].y - center.y <= radius,
        forall|i: int|
            0 <= i < pts@.len() ==> -spec_vertex_tol(radius as int) <= spec_dist(
                center,
                #[trigger] pts@[i],
            ) - radius <= spec_vertex_tol(radius as int),
{
    let ghost model = spec_regular_polygon_points(
        center,
        sides as int,
        radius as int,
        rotation as int,
    );
    let mut pts: Vec<Point> = Vec::new();
    let mut n: usize = 0;
    while n < sides
        invariant
            n <= sides,
            3 <= sides <= 1_000_000,
            0 <= radius,
            -COORD_LIMIT <= center.x - radius,
            center.x + radius <= COORD_LIMIT,
            -COORD_LIMIT <= center.y - radius,
            center.y + radius <= COORD_LIMIT,
            -ROT_LIMIT <= rotation <= ROT_LIMIT,
            pts@.len() == n,
            model == spec_regular_polygon_points(
                center,
                sides as int,
                radius as int,
                rotation as int,
            ),
            forall|i: int|
                0 <= i < n ==> pts@[i] == model[i] && (#[trigger] pts@[i]).in_bounds(),
            forall|i: int|
                0 <= i < n ==> -radius <= (#[trigger] pts@[i]).x - center.x <= radius && -radius
                    <= pts@[i].y - center.y <= radius,
            forall|i: int|
                0 <= i < n ==> -spec_vertex_tol(radius as int) <= spec_dist(
                    center,
                    #[trigger] pts@[i],
                ) - radius <= spec_vertex_tol(radius as int),
        decreases sides - n,
    {
        let num: i64 = TAU * (n as i64);
        let base = rdiv64(num, sides as i64);
        proof {
            assert(0 * (sides as int) == 0) by (nonlinear_arith);
            assert(TAU as int * (n as int) <= TAU as int * (sides as int)) by (nonlinear_arith)
                requires
                    0 <= n <= sides,
            ;
            lemma_rdiv_monotonic(0, TAU as int * (n as int), sides as int);
            lemma_rdiv_monotonic(TAU as int * (n as int), TAU as int * (sides as int), sides as int);
            lemma_rdiv_exact(0, sides as int);
            lemma_rdiv_exact(TAU as int, sides as int);
        }
        let ang = base + rotation;
        let (c, s) = unit_vec(ang);
        let vx = fmul(radius, c);
        let vy = fmul(radius, s);
        proof {
            lemma_fmul_unit_bound(radius as int, c as int);
            lemma_fmul_unit_bound(radius as int, s as int);
        }
        let vertex = Point { x: center.x + vx, y: center.y + vy };
        proof {
            lemma_vertex_distance(center, radius as int, c as int, s as int, vertex);
        }
        pts.push(vertex);
        n += 1;
    }
    let first = pts[0];
    pts.push(first);
    proof {
        assert(pts@ =~= model);
        assert(pts@[sides as int] == pts@[0]);
    }
    pts
}

} // verus!
