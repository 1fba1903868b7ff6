//! Fixed-point scalar arithmetic.
//!
//! Every scalar in the crate is an `i64` counting `1/SCALE`ths of a unit.
//! All rounding goes through [`rdiv`], division rounded to nearest with ties
//! toward positive infinity, so contracts elsewhere can state results
//! exactly.

use vstd::prelude::*;
use vstd::arithmetic::div_mod::{lemma_fundamental_div_mod, lemma_fundamental_div_mod_converse};

verus! {

/// Raw integer units per coordinate unit: every scalar in this crate is a
/// fixed-point value counted in `1/SCALE`ths.
pub const SCALE: i64 = 10000;

/// Largest magnitude, in raw units, of a point coordinate, translation
/// component or stroke width accepted by the camera and drawing entry
/// points (1000 units).
pub const COORD_LIMIT: i64 = 10_000_000;

/// Largest magnitude, in raw units, of a camera matrix entry (4000 units,
/// so the camera zoom stays below 4000).
pub const MAT_LIMIT: i64 = 40_000_000;

/// Largest output size, in raw units, accepted by a renderer (8000 units).
pub const SIZE_LIMIT: i64 = 80_000_000;

/// Largest points-per-unit resolution accepted by the canvas.
pub const PPU_LIMIT: usize = 1_000_000;

/// Largest magnitude accepted for either factor of [`fmul`].
pub const FMUL_LIMIT: i64 = 2_800_000_000;

/// Largest numerator magnitude accepted by [`rdiv64`].
pub const DIV_NUM_LIMIT: i64 = 8_200_000_000_000_000_000;

/// Largest denominator accepted by [`rdiv64`].
pub const DIV_DEN_LIMIT: i64 = 4_000_000_000_000_000;

/// Division of `n` by positive `d`, rounded to the nearest integer with
/// ties toward positive infinity. `/` on `int` is Euclidean division, so for
/// `d > 0` this is `floor((n + d/2) / d)`.
pub open spec fn rdiv(n: int, d: int) -> int {
    (n + d / 2) / d
}

/// `v` forced into the interval `[lo, hi]`.
pub open spec fn clamp_spec(v: int, lo: int, hi: int) -> int {
    if v < lo {
        lo
    } else if v > hi {
        hi
    } else {
        v
    }
}

/// Floor division of `n` by positive `d`.
pub(crate) fn div_floor(n: i64, d: i64) -> (q: i64)
    requires
        1 <= d <= DIV_DEN_LIMIT,
        -DIV_NUM_LIMIT - DIV_DEN_LIMIT <= n <= DIV_NUM_LIMIT + DIV_DEN_LIMIT,
    ensures
        q == n as int / d as int,
{
    if n >= 0 {
        let nn: u64 = n as u64;
        let dd: u64 = d as u64;
        let q: u64 = nn / dd;
        proof {
            lemma_fundamental_div_mod(nn as int, dd as int);
            assert(q as int == n as int / d as int);
        }
        q as i64
    } else {
        let m: u64 = (-n) as u64;
        let dd: u64 = d as u64;
        let t: u64 = m + dd - 1;
        let q: u64 = t / dd;
        proof {
            lemma_fundamental_div_mod(t as int, dd as int);
            // q is ceil(m / d); exhibit the Euclidean decomposition of n by d.
            let qi = q as int;
            let di = d as int;
            let mi = m as int;
            assert(qi * di <= mi + di - 1 && mi <= qi * di) by {
                assert(t as int == di * qi + (t as int % di));
                assert(0 <= t as int % di < di);
                assert(di * qi == qi * di) by (nonlinear_arith);
            }
            let r = qi * di - mi;
            assert(n as int == di * (-qi) + r) by (nonlinear_arith)
                requires
                    n as int == -mi,
                    r == qi * di - mi,
            ;
            lemma_fundamental_div_mod_converse(n as int, di, -qi, r);
        }
        let qs: i64 = q as i64;
        -qs
    }
}

/// Division rounded to nearest, ties toward positive infinity.
pub fn rdiv64(n: i64, d: i64) -> (q: i64)
    requires
        1 <= d <= DIV_DEN_LIMIT,
        -DIV_NUM_LIMIT <= n <= DIV_NUM_LIMIT,
    ensures
        q == rdiv(n as int, d as int),
{
    let h: i64 = ((d as u64) / 2) as i64;
    proof {
        lemma_fundamental_div_mod(d as int, 2);
        assert(h == d as int / 2);
    }
    div_floor(n + h, d)
}

/// Fixed-point multiplication: the product of two scalars, rounded to the
/// nearest representable value.
pub fn fmul(a: i64, b: i64) -> (r: i64)
    requires
        -FMUL_LIMIT <= a <= FMUL_LIMIT,
        -FMUL_LIMIT <= b <= FMUL_LIMIT,
    ensures
        r == rdiv(a * b, SCALE as int),
{
    proof {
        assert(-DIV_NUM_LIMIT <= a * b <= DIV_NUM_LIMIT) by (nonlinear_arith)
            requires
                -FMUL_LIMIT <= a <= FMUL_LIMIT,
                -FMUL_LIMIT <= b <= FMUL_LIMIT,
        ;
    }
    rdiv64(a * b, SCALE)
}

/// Fixed-point division of `a` by nonzero `b`: the quotient of the two
/// scalars, rounded to the nearest representable value.
pub open spec fn fdiv_spec(a: int, b: int) -> int {
    if b > 0 {
        rdiv(a * SCALE as int, b)
    } else {
        rdiv(-(a * SCALE as int), -b)
    }
}

/// Largest magnitude accepted for the dividend of [`fdiv`].
pub const FDIV_NUM_LIMIT: i64 = 800_000_000_000_000;

/// Fixed-point division of `a` by nonzero `b`.
pub fn fdiv(a: i64, b: i64) -> (r: i64)
    requires
        b != 0,
        -DIV_DEN_LIMIT <= b <= DIV_DEN_LIMIT,
        -FDIV_NUM_LIMIT <= a <= FDIV_NUM_LIMIT,
    ensures
        r == fdiv_spec(a as int, b as int),
{
    let n: i64 = a * SCALE;
    if b > 0 {
        rdiv64(n, b)
    } else {
        rdiv64(-n, -b)
    }
}

/// The truncating remainder of `a` by nonzero `b`: the remainder left after
/// removing the quotient rounded toward zero, as the float `%` operator
/// computes it.
pub open spec fn spec_trunc_rem(a: int, b: int) -> int {
    let m = if b >= 0 {
        b
    } else {
        -b
    };
    if a >= 0 {
        a % m
    } else {
        -((-a) % m)
    }
}

/// The truncating remainder of `a` by nonzero `b`.
pub fn trunc_rem(a: i64, b: i64) -> (r: i64)
    requires
        b != 0,
        -DIV_DEN_LIMIT <= b <= DIV_DEN_LIMIT,
        -DIV_NUM_LIMIT <= a <= DIV_NUM_LIMIT,
    ensures
        r == spec_trunc_rem(a as int, b as int),
{
    let m: u64 = (if b >= 0 {
        b
    } else {
        -b
    }) as u64;
    if a >= 0 {
        ((a as u64) % m) as i64
    } else {
        let v: u64 = ((-a) as u64) % m;
        -(v as i64)
    }
}

/// `v` forced into the interval `[lo, hi]`.
pub fn clamp64(v: i64, lo: i64, hi: i64) -> (r: i64)
    requires
        lo <= hi,
    ensures
        r == clamp_spec(v as int, lo as int, hi as int),
{
    if v < lo {
        lo
    } else if v > hi {
        hi
    } else {
        v
    }
}

/// Integer square root: the largest `r` with `r * r <= n`.
pub fn isqrt(n: u64) -> (r: u64)
    ensures
        r * r <= n,
        n < (r + 1) * (r + 1),
        r <= 0xffff_ffffu64,
{
    let mut lo: u64 = 0;
    let mut hi: u64 = 0x1_0000_0000;
    proof {
        assert((hi as int) * (hi as int) > n as int) by (nonlinear_arith)
            requires
                hi == 0x1_0000_0000u64,
                n <= u64::MAX,
        ;
    }
    while lo + 1 < hi
        invariant
            lo < hi <= 0x1_0000_0000u64,
            (lo as int) * (lo as int) <= n as int,
            (n as int) < (hi as int) * (hi as int),
        decreases hi - lo,
    {
        let mid: u64 = lo + (hi - lo) / 2;
        proof {
            assert(mid * mid <= 0xffff_fffe_0000_0001u64) by (nonlinear_arith)
                requires
                    mid <= 0xffff_ffffu64,
            ;
        }
        if mid * mid <= n {
            lo = mid;
        } else {
            hi = mid;
        }
    }
    lo
}

/// The basic bound on rounded division: the result times the divisor is
/// within half a divisor (rounded) of the numerator.
pub proof fn lemma_rdiv_bounds(n: int, d: int)
    requires
        d >= 1,
    ensures
        d * rdiv(n, d) <= n + d / 2,
        n + d / 2 < d * (rdiv(n, d) + 1),
        2 * (n - d * rdiv(n, d)) <= d,
        2 * (d * rdiv(n, d) - n) <= d + 1,
{
    lemma_fundamental_div_mod(n + d / 2, d);
    lemma_fundamental_div_mod(d, 2);
    assert(d * ((n + d / 2) / d) == (n + d / 2) - (n + d / 2) % d);
    assert(d * (rdiv(n, d) + 1) == d * rdiv(n, d) + d) by (nonlinear_arith);
}

/// Rounded division by a positive divisor never grows the magnitude.
pub proof fn lemma_rdiv_magnitude(n: int, d: int)
    requires
        d >= 1,
    ensures
        n >= 0 ==> 0 <= rdiv(n, d) <= n,
        n <= 0 ==> n <= rdiv(n, d) <= 0,
{
    lemma_rdiv_bounds(n, d);
    let q = rdiv(n, d);
    let h = d / 2;
    assert(0 <= h && 2 * h <= d);
    assert((n >= 0 ==> 0 <= q <= n) && (n <= 0 ==> n <= q <= 0)) by (nonlinear_arith)
        requires
            d >= 1,
            0 <= h,
            2 * h <= d,
            d * q <= n + h,
            n + h < d * (q + 1),
    ;
}

/// Rounded division is monotonic in the numerator.
pub proof fn lemma_rdiv_monotonic(n1: int, n2: int, d: int)
    requires
        d >= 1,
        n1 <= n2,
    ensures
        rdiv(n1, d) <= rdiv(n2, d),
{
    vstd::arithmetic::div_mod::lemma_div_is_ordered(n1 + d / 2, n2 + d / 2, d);
}

/// Scaling by a factor of at most one unit does not grow the magnitude.
pub proof fn lemma_fmul_unit_bound(a: int, c: int)
    requires
        0 <= a,
        -SCALE <= c <= SCALE,
    ensures
        -a <= rdiv(a * c, SCALE as int) <= a,
{
    assert(-(a * SCALE as int) <= a * c <= a * SCALE as int) by (nonlinear_arith)
        requires
            0 <= a,
            -SCALE <= c <= SCALE,
    ;
    lemma_rdiv_monotonic(a * c, a * SCALE as int, SCALE as int);
    lemma_rdiv_monotonic(-(a * SCALE as int), a * c, SCALE as int);
    lemma_rdiv_exact(a, SCALE as int);
    assert(-(a * SCALE as int) == (-a) * SCALE as int) by (nonlinear_arith);
    lemma_rdiv_exact(-a, SCALE as int);
}

/// Scaling an exact multiple of the divisor divides exactly.
pub proof fn lemma_rdiv_exact(k: int, d: int)
    requires
        d >= 1,
    ensures
        rdiv(k * d, d) == k,
{
    lemma_fundamental_div_mod(d, 2);
    assert((k * d + d / 2) == d * k + d / 2) by (nonlinear_arith);
    lemma_fundamental_div_mod_converse(k * d + d / 2, d, k, d / 2);
}

} // verus!
