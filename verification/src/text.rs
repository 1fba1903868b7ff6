//! Decimal text for fixed-point scalars and for indices.
//!
//! A fixed-point scalar prints as its integer part, then, when the
//! fractional part is nonzero, a point and up to four fractional digits
//! with trailing zeros removed — so whole values print as plain integers.

use vstd::prelude::*;
use crate::color::{spec_hex_digit, hex_digit_str};
use crate::num::SCALE;

verus! {

/// The decimal digits of a number, most significant first.
pub open spec fn spec_dec_digits(n: nat) -> Seq<char>
    decreases n,
{
    if n < 10 {
        seq![spec_hex_digit(n as int)]
    } else {
        spec_dec_digits(n / 10) + seq![spec_hex_digit((n % 10) as int)]
    }
}

/// The text with its trailing zero characters removed.
pub open spec fn spec_trim_zeros(s: Seq<char>) -> Seq<char>
    decreases s.len(),
{
    if s.len() > 0 && s.last() == '0' {
        spec_trim_zeros(s.drop_last())
    } else {
        s
    }
}

/// The four zero-padded digits of a fractional part (in raw units).
pub open spec fn spec_frac_digits(f: nat) -> Seq<char> {
    seq![
        spec_hex_digit((f / 1000 % 10) as int),
        spec_hex_digit((f / 100 % 10) as int),
        spec_hex_digit((f / 10 % 10) as int),
        spec_hex_digit((f % 10) as int),
    ]
}

/// The decimal text of a fixed-point scalar: optional sign, integer part,
/// and the trimmed fractional digits when the value is not whole.
pub open spec fn spec_fmt_fx(v: int) -> Seq<char> {
    let m = if v < 0 {
        -v
    } else {
        v
    };
    let sign: Seq<char> = if v < 0 {
        seq!['-']
    } else {
        Seq::empty()
    };
    let ip = m / (SCALE as int);
    let fp = m % (SCALE as int);
    if fp == 0 {
        sign + spec_dec_digits(ip as nat)
    } else {
        sign + spec_dec_digits(ip as nat) + seq!['.'] + spec_trim_zeros(
            spec_frac_digits(fp as nat),
        )
    }
}

/// The decimal text of a signed integer.
pub open spec fn spec_fmt_int(v: int) -> Seq<char> {
    if v < 0 {
        seq!['-'] + spec_dec_digits((-v) as nat)
    } else {
        spec_dec_digits(v as nat)
    }
}

/// The single-character string of a decimal digit.
fn dec_digit_str(d: u8) -> (s: &'static str)
    requires
        d < 10,
    ensures
        s@ =~= seq![spec_hex_digit(d as int)],
{
    hex_digit_str(d)
}

/// The decimal digits of a number, most significant first.
pub fn fmt_u64(n: u64) -> (s: String)
    ensures
        s@ == spec_dec_digits(n as nat),
    decreases n,
{
    if n < 10 {
        String::from_str(dec_digit_str(n as u8))
    } else {
        let mut s = fmt_u64(n / 10);
        s.append(dec_digit_str((n % 10) as u8));
        s
    }
}

/// The decimal text of an index.
pub fn fmt_usize(n: usize) -> (s: String)
    ensures
        s@ == spec_dec_digits(n as nat),
{
    fmt_u64(n as u64)
}

/// The magnitude of a signed integer, as an unsigned one.
fn abs_u64(v: i64) -> (m: u64)
    ensures
        m == if v >= 0 {
            v as int
        } else {
            -(v as int)
        },
{
    if v >= 0 {
        v as u64
    } else {
        (-(v as i128)) as u64
    }
}

/// The decimal text of a signed integer.
pub fn fmt_i64(v: i64) -> (s: String)
    ensures
        s@ == spec_fmt_int(v as int),
{
    if v < 0 {
        proof {
            reveal_strlit("-");
        }
        let mut s = String::from_str("-");
        proof {
            assert(s@ =~= seq!['-']);
        }
        s.append(fmt_u64(abs_u64(v)).as_str());
        s
    } else {
        fmt_u64(v as u64)
    }
}

/// The decimal text of a fixed-point scalar.
pub fn fmt_fx(v: i64) -> (s: String)
    ensures
        s@ == spec_fmt_fx(v as int),
{
    proof {
        reveal_strlit("-");
        reveal_strlit(".");
    }
    let m: u64 = abs_u64(v);
    let ip: u64 = m / (SCALE as u64);
    let fp: u64 = m % (SCALE as u64);
    let mut s = if v < 0 {
        let s0 = String::from_str("-");
        proof {
            assert(s0@ =~= seq!['-']);
        }
        s0
    } else {
        let s0 = String::new();
        proof {
            assert(s0@ =~= Seq::<char>::empty());
        }
        s0
    };
    s.append(fmt_u64(ip).as_str());
    if fp > 0 {
        s.append(".");
        let d0: u8 = ((fp / 1000) % 10) as u8;
        let d1: u8 = ((fp / 100) % 10) as u8;
        let d2: u8 = ((fp / 10) % 10) as u8;
        let d3: u8 = (fp % 10) as u8;
        proof {
            lemma_trim_frac(fp as nat, d0 as int, d1 as int, d2 as int, d3 as int);
        }
        s.append(dec_digit_str(d0));
        if d3 != 0 {
            s.append(dec_digit_str(d1));
            s.append(dec_digit_str(d2));
            s.append(dec_digit_str(d3));
        } else if d2 != 0 {
            s.append(dec_digit_str(d1));
            s.append(dec_digit_str(d2));
        } else if d1 != 0 {
            s.append(dec_digit_str(d1));
        }
        proof {
            assert(s@ =~= spec_fmt_fx(v as int));
        }
    }
    s
}

/// How the trailing-zero trim of four fractional digits unfolds, by the
/// last nonzero digit.
proof fn lemma_trim_frac(f: nat, d0: int, d1: int, d2: int, d3: int)
    requires
        0 < f < SCALE,
        d0 == f / 1000 % 10,
        d1 == f / 100 % 10,
        d2 == f / 10 % 10,
        d3 == f % 10,
    ensures
        d3 != 0 ==> spec_trim_zeros(spec_frac_digits(f)) =~= seq![
            spec_hex_digit(d0),
            spec_hex_digit(d1),
            spec_hex_digit(d2),
            spec_hex_digit(d3),
        ],
        d3 == 0 && d2 != 0 ==> spec_trim_zeros(spec_frac_digits(f)) =~= seq![
            spec_hex_digit(d0),
            spec_hex_digit(d1),
            spec_hex_digit(d2),
        ],
        d3 == 0 && d2 == 0 && d1 != 0 ==> spec_trim_zeros(spec_frac_digits(f)) =~= seq![
            spec_hex_digit(d0),
            spec_hex_digit(d1),
        ],
        d3 == 0 && d2 == 0 && d1 == 0 ==> spec_trim_zeros(spec_frac_digits(f)) =~= seq![
            spec_hex_digit(d0),
        ],
{
    let digits = spec_frac_digits(f);
    assert(digits.len() == 4);
    if d3 != 0 {
        assert(digits.last() == spec_hex_digit(d3));
        assert(spec_hex_digit(d3) != '0');
        assert(spec_trim_zeros(digits) =~= digits);
    } else {
        assert(digits.last() == '0');
        assert(digits.drop_last() =~= seq![
            spec_hex_digit(d0),
            spec_hex_digit(d1),
            spec_hex_digit(d2),
        ]);
        assert(spec_trim_zeros(digits) == spec_trim_zeros(digits.drop_last()));
        if d2 != 0 {
            assert(digits.drop_last().last() == spec_hex_digit(d2));
            assert(spec_hex_digit(d2) != '0');
            assert(spec_trim_zeros(digits.drop_last()) == digits.drop_last());
        } else {
            assert(digits.drop_last().last() == '0');
            assert(spec_trim_zeros(digits.drop_last()) == spec_trim_zeros(
                digits.drop_last().drop_last(),
            ));
            assert(digits.drop_last().drop_last() =~= seq![
                spec_hex_digit(d0),
                spec_hex_digit(d1),
            ]);
            if d1 != 0 {
                assert(digits.drop_last().drop_last().last() == spec_hex_digit(d1));
                assert(spec_hex_digit(d1) != '0');
                assert(spec_trim_zeros(digits.drop_last().drop_last()) == digits.drop_last()
                    .drop_last());
            } else {
                assert(d0 != 0) by {
                    assert(f == 1000 * d0 + 100 * d1 + 10 * d2 + d3);
                }
                assert(digits.drop_last().drop_last().last() == '0');
                assert(spec_trim_zeros(digits.drop_last().drop_last()) == spec_trim_zeros(
                    digits.drop_last().drop_last().drop_last(),
                ));
                assert(digits.drop_last().drop_last().drop_last() =~= seq![spec_hex_digit(d0)]);
                assert(spec_hex_digit(d0) != '0');
                assert(spec_trim_zeros(digits.drop_last().drop_last().drop_last())
                    == digits.drop_last().drop_last().drop_last());
            }
        }
    }
}

} // verus!
