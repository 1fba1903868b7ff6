//! RGBA colors with componentwise arithmetic and a hex codec.
//!
//! Channels are fixed-point scalars; a channel value of [`SCALE`] is full
//! intensity. The hex codec clamps each channel into `[0, 1]` before
//! quantizing to 8 bits, so out-of-range channels can never wrap around.

use vstd::prelude::*;
use crate::num::{
    SCALE, rdiv, clamp_spec, rdiv64, fmul, clamp64, fdiv, fdiv_spec, trunc_rem, spec_trunc_rem,
    lemma_rdiv_monotonic, lemma_rdiv_exact, lemma_fmul_unit_bound,
};

verus! {

/// Largest channel magnitude accepted by the arithmetic operations.
pub const COLOR_LIMIT: i64 = 1_000_000_000;

/// An RGBA color; each channel is a fixed-point scalar, canonically in
/// `[0, SCALE]`.
#[derive(Clone, Copy, Debug, PartialEq, Eq, Structural)]
pub struct Color {
    /// Red channel, in raw units.
    pub r: i64,
    /// Green channel, in raw units.
    pub g: i64,
    /// Blue channel, in raw units.
    pub b: i64,
    /// Alpha (opacity) channel, in raw units.
    pub a: i64,
}

/// Why a hex color string was rejected.
#[derive(Clone, Copy, Debug, PartialEq, Eq, Structural)]
pub enum ParseColorError {
    /// Fewer than six hex digits followed the optional prefix, or an alpha
    /// pair was started but not completed.
    TooShort,
    /// A character in a digit position was not a hexadecimal digit.
    InvalidDigit,
}

impl Color {
    /// Opaque white.
    pub fn white() -> (c: Color)
        ensures
            c == (Color { r: SCALE, g: SCALE, b: SCALE, a: SCALE }),
    {
        Color { r: SCALE, g: SCALE, b: SCALE, a: SCALE }
    }

    /// Opaque black.
    pub fn black() -> (c: Color)
        ensures
            c == (Color { r: 0i64, g: 0i64, b: 0i64, a: SCALE }),
    {
        Color { r: 0, g: 0, b: 0, a: SCALE }
    }

    /// Opaque red.
    pub fn red() -> (c: Color)
        ensures
            c == (Color { r: SCALE, g: 0i64, b: 0i64, a: SCALE }),
    {
        Color { r: SCALE, g: 0, b: 0, a: SCALE }
    }

    /// Opaque green.
    pub fn green() -> (c: Color)
        ensures
            c == (Color { r: 0i64, g: SCALE, b: 0i64, a: SCALE }),
    {
        Color { r: 0, g: SCALE, b: 0, a: SCALE }
    }

    /// Opaque blue.
    pub fn blue() -> (c: Color)
        ensures
            c == (Color { r: 0i64, g: 0i64, b: SCALE, a: SCALE }),
    {
        Color { r: 0, g: 0, b: SCALE, a: SCALE }
    }

    /// Fully transparent black.
    pub fn transparent() -> (c: Color)
        ensures
            c == (Color { r: 0i64, g: 0i64, b: 0i64, a: 0i64 }),
    {
        Color { r: 0, g: 0, b: 0, a: 0 }
    }

    /// A color from its four channels.
    pub fn new(r: i64, g: i64, b: i64, a: i64) -> (c: Color)
        ensures
            c == (Color { r, g, b, a }),
    {
        Color { r, g, b, a }
    }

    /// The red channel.
    pub fn r(&self) -> (v: i64)
        ensures
            v == self.r,
    {
        self.r
    }

    /// The green channel.
    pub fn g(&self) -> (v: i64)
        ensures
            v == self.g,
    {
        self.g
    }

    /// The blue channel.
    pub fn b(&self) -> (v: i64)
        ensures
            v == self.b,
    {
        self.b
    }

    /// The alpha channel.
    pub fn a(&self) -> (v: i64)
        ensures
            v == self.a,
    {
        self.a
    }

    /// Mutable access to the red channel.
    pub fn r_mut(&mut self) -> (v: &mut i64)
        ensures
            *v == old(self).r,
            *final(self) == (Color { r: *final(v), ..*old(self) }),
    {
        &mut self.r
    }

    /// Mutable access to the green channel.
    pub fn g_mut(&mut self) -> (v: &mut i64)
        ensures
            *v == old(self).g,
            *final(self) == (Color { g: *final(v), ..*old(self) }),
    {
        &mut self.g
    }

    /// Mutable access to the blue channel.
    pub fn b_mut(&mut self) -> (v: &mut i64)
        ensures
            *v == old(self).b,
            *final(self) == (Color { b: *final(v), ..*old(self) }),
    {
        &mut self.b
    }

    /// Mutable access to the alpha channel.
    pub fn a_mut(&mut self) -> (v: &mut i64)
        ensures
            *v == old(self).a,
            *final(self) == (Color { a: *final(v), ..*old(self) }),
    {
        &mut self.a
    }
}

impl Default for Color {
    /// Transparent black, the all-zero color.
    fn default() -> (c: Color)
        ensures
            c == (Color { r: 0i64, g: 0i64, b: 0i64, a: 0i64 }),
    {
        Color { r: 0, g: 0, b: 0, a: 0 }
    }
}

/// The 8-bit quantization of a channel: clamped into one unit, scaled to
/// 255 and rounded.
pub open spec fn spec_channel_byte(v: int) -> int {
    rdiv(clamp_spec(v, 0, SCALE as int) * 255, SCALE as int)
}

/// The fixed-point channel a quantized byte stands for.
pub open spec fn spec_byte_channel(b: int) -> int {
    rdiv(b * SCALE as int, 255)
}

/// The uppercase hexadecimal digit of a value below sixteen.
pub open spec fn spec_hex_digit(d: int) -> char {
    if d == 0 {
        '0'
    } else if d == 1 {
        '1'
    } else if d == 2 {
        '2'
    } else if d == 3 {
        '3'
    } else if d == 4 {
        '4'
    } else if d == 5 {
        '5'
    } else if d == 6 {
        '6'
    } else if d == 7 {
        '7'
    } else if d == 8 {
        '8'
    } else if d == 9 {
        '9'
    } else if d == 10 {
        'A'
    } else if d == 11 {
        'B'
    } else if d == 12 {
        'C'
    } else if d == 13 {
        'D'
    } else if d == 14 {
        'E'
    } else {
        'F'
    }
}

/// The value of a hexadecimal digit character, either case.
pub open spec fn spec_hex_val(c: char) -> Option<int> {
    match c {
        '0' => Some(0int),
        '1' => Some(1int),
        '2' => Some(2int),
        '3' => Some(3int),
        '4' => Some(4int),
        '5' => Some(5int),
        '6' => Some(6int),
        '7' => Some(7int),
        '8' => Some(8int),
        '9' => Some(9int),
        'a' | 'A' => Some(10int),
        'b' | 'B' => Some(11int),
        'c' | 'C' => Some(12int),
        'd' | 'D' => Some(13int),
        'e' | 'E' => Some(14int),
        'f' | 'F' => Some(15int),
        _ => None,
    }
}

/// Two uppercase hex digits for a byte.
pub open spec fn spec_hex2(b: int) -> Seq<char> {
    seq![spec_hex_digit(b / 16), spec_hex_digit(b % 16)]
}

/// The hex form of a color: `#RRGGBB`, with `AA` appended when the alpha
/// channel is included. Channels are clamped before quantization.
pub open spec fn spec_as_hex(c: Color, include_alpha: bool) -> Seq<char> {
    let base = seq!['#'] + spec_hex2(spec_channel_byte(c.r as int)) + spec_hex2(
        spec_channel_byte(c.g as int),
    ) + spec_hex2(spec_channel_byte(c.b as int));
    if include_alpha {
        base + spec_hex2(spec_channel_byte(c.a as int))
    } else {
        base
    }
}

/// How many leading characters of a hex string are prefix: one for `#`,
/// two for `0x`, none otherwise.
pub open spec fn spec_hex_prefix_len(s: Seq<char>) -> int {
    if s.len() >= 1 && s[0] == '#' {
        1
    } else if s.len() >= 2 && s[0] == '0' && s[1] == 'x' {
        2
    } else {
        0
    }
}

/// The byte encoded by the two hex digits at position `i`, when both are
/// valid digits.
pub open spec fn spec_byte_at(s: Seq<char>, i: int) -> Option<int> {
    match (spec_hex_val(s[i]), spec_hex_val(s[i + 1])) {
        (Some(hi), Some(lo)) => Some(16 * hi + lo),
        _ => None,
    }
}

/// The result of parsing a hex color string: an optional `#` or `0x`
/// prefix, six hex digits, and either nothing more or a complete alpha
/// pair (missing alpha means fully opaque). Trailing characters beyond the
/// eighth digit are ignored.
pub open spec fn spec_from_hex(s: Seq<char>) -> Result<Color, ParseColorError> {
    let p = spec_hex_prefix_len(s);
    if s.len() < p + 6 {
        Err(ParseColorError::TooShort)
    } else {
        match (spec_byte_at(s, p), spec_byte_at(s, p + 2), spec_byte_at(s, p + 4)) {
            (Some(rb), Some(gb), Some(bb)) => {
                if s.len() == p + 6 {
                    Ok(
                        Color {
                            r: spec_byte_channel(rb) as i64,
                            g: spec_byte_channel(gb) as i64,
                            b: spec_byte_channel(bb) as i64,
                            a: SCALE,
                        },
                    )
                } else if s.len() < p + 8 {
                    Err(ParseColorError::TooShort)
                } else {
                    match spec_byte_at(s, p + 6) {
                        Some(ab) => Ok(
                            Color {
                                r: spec_byte_channel(rb) as i64,
                                g: spec_byte_channel(gb) as i64,
                                b: spec_byte_channel(bb) as i64,
                                a: spec_byte_channel(ab) as i64,
                            },
                        ),
                        None => Err(ParseColorError::InvalidDigit),
                    }
                }
            },
            _ => Err(ParseColorError::InvalidDigit),
        }
    }
}

/// The single-character string of an uppercase hex digit.
pub(crate) fn hex_digit_str(d: u8) -> (s: &'static str)
    requires
        d < 16,
    ensures
        s@ =~= seq![spec_hex_digit(d as int)],
{
    proof {
        reveal_strlit("0");
        reveal_strlit("1");
        reveal_strlit("2");
        reveal_strlit("3");
        reveal_strlit("4");
        reveal_strlit("5");
        reveal_strlit("6");
        reveal_strlit("7");
        reveal_strlit("8");
        reveal_strlit("9");
        reveal_strlit("A");
        reveal_strlit("B");
        reveal_strlit("C");
        reveal_strlit("D");
        reveal_strlit("E");
        reveal_strlit("F");
    }
    match d {
        0 => "0",
        1 => "1",
        2 => "2",
        3 => "3",
        4 => "4",
        5 => "5",
        6 => "6",
        7 => "7",
        8 => "8",
        9 => "9",
        10 => "A",
        11 => "B",
        12 => "C",
        13 => "D",
        14 => "E",
        _ => "F",
    }
}

/// Append the two-digit uppercase hex form of `b` to `out`.
fn push_hex2(out: &mut String, b: u8)
    ensures
        final(out)@ == old(out)@ + spec_hex2(b as int),
{
    let hi = b / 16;
    let lo = b % 16;
    out.append(hex_digit_str(hi));
    out.append(hex_digit_str(lo));
}

/// The 8-bit quantization of one channel.
fn channel_byte(v: i64) -> (b: u8)
    ensures
        b as int == spec_channel_byte(v as int),
{
    let cl = clamp64(v, 0, SCALE);
    let q = rdiv64(cl * 255, SCALE);
    proof {
        crate::num::lemma_rdiv_monotonic(0, cl as int * 255, SCALE as int);
        crate::num::lemma_rdiv_monotonic(cl as int * 255, SCALE as int * 255, SCALE as int);
        crate::num::lemma_rdiv_exact(0, SCALE as int);
        crate::num::lemma_rdiv_exact(255, SCALE as int);
        assert(0 * SCALE as int == 0) by (nonlinear_arith);
        assert(255 * SCALE as int == SCALE as int * 255) by (nonlinear_arith);
    }
    q as u8
}

impl Color {
    /// Format as `#RRGGBB`, or `#RRGGBBAA` when `include_alpha` is set, in
    /// uppercase hex; channels are clamped into `[0, 1]` before quantizing.
    pub fn as_hex(&self, include_alpha: bool) -> (s: String)
        ensures
            s@ == spec_as_hex(*self, include_alpha),
    {
        proof {
            reveal_strlit("#");
        }
        let mut out = String::from_str("#");
        proof {
            assert(out@ =~= seq!['#']);
        }
        push_hex2(&mut out, channel_byte(self.r));
        push_hex2(&mut out, channel_byte(self.g));
        push_hex2(&mut out, channel_byte(self.b));
        if include_alpha {
            push_hex2(&mut out, channel_byte(self.a));
        }
        out
    }

    /// Parse a hex color: an optional `#` or `0x` prefix, six hex digits,
    /// and an optional pair of alpha digits (missing alpha parses as fully
    /// opaque). Fails with [`ParseColorError::TooShort`] when fewer than six
    /// digits (or a broken alpha pair) follow the prefix, and with
    /// [`ParseColorError::InvalidDigit`] when a digit position holds a
    /// non-hex character.
    #[verifier::rlimit(50)]
    pub fn from_hex(hex: &str) -> (r: Result<Color, ParseColorError>)
        ensures
            r == spec_from_hex(hex@),
    {
        let len = hex.unicode_len();
        let p: usize = if len >= 1 && hex.get_char(0) == '#' {
            1
        } else if len >= 2 && hex.get_char(0) == '0' && hex.get_char(1) == 'x' {
            2
        } else {
            0
        };
        if len < p + 6 {
            return Err(ParseColorError::TooShort);
        }
        let rb = parse_byte(hex, p);
        let gb = parse_byte(hex, p + 2);
        let bb = parse_byte(hex, p + 4);
        match (rb, gb, bb) {
            (Some(rb), Some(gb), Some(bb)) => {
                if len == p + 6 {
                    Ok(
                        Color {
                            r: byte_channel(rb),
                            g: byte_channel(gb),
                            b: byte_channel(bb),
                            a: SCALE,
                        },
                    )
                } else if len < p + 8 {
                    Err(ParseColorError::TooShort)
                } else {
                    match parse_byte(hex, p + 6) {
                        Some(ab) => Ok(
                            Color {
                                r: byte_channel(rb),
                                g: byte_channel(gb),
                                b: byte_channel(bb),
                                a: byte_channel(ab),
                            },
                        ),
                        None => Err(ParseColorError::InvalidDigit),
                    }
                }
            },
            _ => Err(ParseColorError::InvalidDigit),
        }
    }
}

/// The color of a hue/saturation/value triple, all in `[0, 1]`: the usual
/// six-sector chroma construction, with full opacity.
pub open spec fn spec_from_hsv(h: int, s: int, v: int) -> Color {
    let hp6 = 6 * h;
    let c = rdiv(s * v, SCALE as int);
    let m2 = hp6 % (2 * (SCALE as int));
    let d = m2 - SCALE as int;
    let ad = if d < 0 {
        -d
    } else {
        d
    };
    let x = rdiv(c * (SCALE as int - ad), SCALE as int);
    let m = v - c;
    let rgb: (int, int, int) = if hp6 <= SCALE as int {
        (c, x, 0int)
    } else if hp6 <= 2 * (SCALE as int) {
        (x, c, 0int)
    } else if hp6 <= 3 * (SCALE as int) {
        (0int, c, x)
    } else if hp6 <= 4 * (SCALE as int) {
        (0int, x, c)
    } else if hp6 <= 5 * (SCALE as int) {
        (x, 0int, c)
    } else {
        (c, 0int, x)
    };
    Color { r: (rgb.0 + m) as i64, g: (rgb.1 + m) as i64, b: (rgb.2 + m) as i64, a: SCALE }
}

impl Color {
    /// The color of a hue/saturation/value triple, each in `[0, 1]`; the
    /// result is fully opaque.
    pub fn from_hsv(hue: i64, saturation: i64, value: i64) -> (col: Color)
        requires
            0 <= hue <= SCALE,
            0 <= saturation <= SCALE,
            0 <= value <= SCALE,
        ensures
            col == spec_from_hsv(hue as int, saturation as int, value as int),
    {
        let hp6: i64 = 6 * hue;
        let c = fmul(saturation, value);
        proof {
            assert(saturation as int * value as int == value as int * saturation as int)
                by (nonlinear_arith);
            lemma_fmul_unit_bound(value as int, saturation as int);
        }
        let m2: i64 = ((hp6 as u64) % ((2 * SCALE) as u64)) as i64;
        let d: i64 = m2 - SCALE;
        let ad: i64 = if d < 0 {
            -d
        } else {
            d
        };
        let x = fmul(c, SCALE - ad);
        proof {
            lemma_fmul_unit_bound(c as int, SCALE as int - ad as int);
        }
        let m: i64 = value - c;
        let (r, g, b): (i64, i64, i64) = if hp6 <= SCALE {
            (c, x, 0)
        } else if hp6 <= 2 * SCALE {
            (x, c, 0)
        } else if hp6 <= 3 * SCALE {
            (0, c, x)
        } else if hp6 <= 4 * SCALE {
            (0, x, c)
        } else if hp6 <= 5 * SCALE {
            (x, 0, c)
        } else {
            (c, 0, x)
        };
        Color { r: r + m, g: g + m, b: b + m, a: SCALE }
    }

    /// Componentwise sum, alpha included.
    pub fn add(self, o: Color) -> (r: Color)
        requires
            channels_bounded(self),
            channels_bounded(o),
        ensures
            r.r == self.r + o.r,
            r.g == self.g + o.g,
            r.b == self.b + o.b,
            r.a == self.a + o.a,
    {
        Color { r: self.r + o.r, g: self.g + o.g, b: self.b + o.b, a: self.a + o.a }
    }

    /// Componentwise difference, alpha included.
    pub fn sub(self, o: Color) -> (r: Color)
        requires
            channels_bounded(self),
            channels_bounded(o),
        ensures
            r.r == self.r - o.r,
            r.g == self.g - o.g,
            r.b == self.b - o.b,
            r.a == self.a - o.a,
    {
        Color { r: self.r - o.r, g: self.g - o.g, b: self.b - o.b, a: self.a - o.a }
    }

    /// Componentwise product, alpha included.
    pub fn mul(self, o: Color) -> (r: Color)
        requires
            channels_bounded(self),
            channels_bounded(o),
        ensures
            r.r == rdiv(self.r * o.r, SCALE as int),
            r.g == rdiv(self.g * o.g, SCALE as int),
            r.b == rdiv(self.b * o.b, SCALE as int),
            r.a == rdiv(self.a * o.a, SCALE as int),
    {
        Color {
            r: fmul(self.r, o.r),
            g: fmul(self.g, o.g),
            b: fmul(self.b, o.b),
            a: fmul(self.a, o.a),
        }
    }

    /// Componentwise quotient, alpha included; every channel of the divisor
    /// must be nonzero.
    pub fn div(self, o: Color) -> (r: Color)
        requires
            channels_bounded(self),
            channels_bounded(o),
            o.r != 0,
            o.g != 0,
            o.b != 0,
            o.a != 0,
        ensures
            r.r == fdiv_spec(self.r as int, o.r as int),
            r.g == fdiv_spec(self.g as int, o.g as int),
            r.b == fdiv_spec(self.b as int, o.b as int),
            r.a == fdiv_spec(self.a as int, o.a as int),
    {
        Color {
            r: fdiv(self.r, o.r),
            g: fdiv(self.g, o.g),
            b: fdiv(self.b, o.b),
            a: fdiv(self.a, o.a),
        }
    }

    /// Componentwise remainder, alpha included; every channel of the divisor
    /// must be nonzero.
    pub fn rem(self, o: Color) -> (r: Color)
        requires
            channels_bounded(self),
            channels_bounded(o),
            o.r != 0,
            o.g != 0,
            o.b != 0,
            o.a != 0,
        ensures
            r.r == spec_trunc_rem(self.r as int, o.r as int),
            r.g == spec_trunc_rem(self.g as int, o.g as int),
            r.b == spec_trunc_rem(self.b as int, o.b as int),
            r.a == spec_trunc_rem(self.a as int, o.a as int),
    {
        Color {
            r: trunc_rem(self.r, o.r),
            g: trunc_rem(self.g, o.g),
            b: trunc_rem(self.b, o.b),
            a: trunc_rem(self.a, o.a),
        }
    }

    /// Every channel scaled by a fixed-point factor.
    pub fn mul_scalar(self, k: i64) -> (r: Color)
        requires
            channels_bounded(self),
            -COLOR_LIMIT <= k <= COLOR_LIMIT,
        ensures
            r.r == rdiv(self.r * k, SCALE as int),
            r.g == rdiv(self.g * k, SCALE as int),
            r.b == rdiv(self.b * k, SCALE as int),
            r.a == rdiv(self.a * k, SCALE as int),
    {
        Color { r: fmul(self.r, k), g: fmul(self.g, k), b: fmul(self.b, k), a: fmul(self.a, k) }
    }

    /// Every channel divided by a nonzero fixed-point factor.
    pub fn div_scalar(self, k: i64) -> (r: Color)
        requires
            channels_bounded(self),
            -COLOR_LIMIT <= k <= COLOR_LIMIT,
            k != 0,
        ensures
            r.r == fdiv_spec(self.r as int, k as int),
            r.g == fdiv_spec(self.g as int, k as int),
            r.b == fdiv_spec(self.b as int, k as int),
            r.a == fdiv_spec(self.a as int, k as int),
    {
        Color { r: fdiv(self.r, k), g: fdiv(self.g, k), b: fdiv(self.b, k), a: fdiv(self.a, k) }
    }

    /// Every channel reduced modulo a nonzero fixed-point factor.
    pub fn rem_scalar(self, k: i64) -> (r: Color)
        requires
            channels_bounded(self),
            -COLOR_LIMIT <= k <= COLOR_LIMIT,
            k != 0,
        ensures
            r.r == spec_trunc_rem(self.r as int, k as int),
            r.g == spec_trunc_rem(self.g as int, k as int),
            r.b == spec_trunc_rem(self.b as int, k as int),
            r.a == spec_trunc_rem(self.a as int, k as int),
    {
        Color {
            r: trunc_rem(self.r, k),
            g: trunc_rem(self.g, k),
            b: trunc_rem(self.b, k),
            a: trunc_rem(self.a, k),
        }
    }
}

/// Parsing a hex digit gives back the value it was printed from.
proof fn lemma_hex_digit_round_trip(v: int)
    requires
        0 <= v < 16,
    ensures
        spec_hex_val(spec_hex_digit(v)) == Some(v),
{
}

/// One channel quantized to a byte and back lands within `1/255` of where
/// it started.
proof fn lemma_channel_quantization(v: int)
    requires
        0 <= v <= SCALE,
    ensures
        0 <= spec_channel_byte(v) <= 255,
        0 <= spec_byte_channel(spec_channel_byte(v)) <= SCALE,
        -SCALE <= 255 * (spec_byte_channel(spec_channel_byte(v)) - v) <= SCALE,
{
    let b = spec_channel_byte(v);
    lemma_rdiv_monotonic(0, v * 255, SCALE as int);
    lemma_rdiv_monotonic(v * 255, SCALE as int * 255, SCALE as int);
    lemma_rdiv_exact(0, SCALE as int);
    lemma_rdiv_exact(255, SCALE as int);
    assert(0 * (SCALE as int) == 0 && 255 * (SCALE as int) == (SCALE as int) * 255)
        by (nonlinear_arith);
    let w = spec_byte_channel(b);
    lemma_rdiv_monotonic(0, b * SCALE as int, 255);
    lemma_rdiv_monotonic(b * SCALE as int, 255 * SCALE as int, 255);
    lemma_rdiv_exact(0, 255);
    lemma_rdiv_exact(SCALE as int, 255);
    assert(0 * 255 == 0 && (SCALE as int) * 255 == 255 * (SCALE as int)) by (nonlinear_arith);
    assert(0 <= b * SCALE as int <= 255 * SCALE as int) by (nonlinear_arith)
        requires
            0 <= b <= 255,
    ;
    crate::num::lemma_rdiv_bounds(v * 255, SCALE as int);
    crate::num::lemma_rdiv_bounds(b * SCALE as int, 255);
}

/// Parsing a color's own eight-digit hex form never fails, and recovers
/// every channel within the 8-bit quantization tolerance of `1/255`. This
/// needs the channels in `[0, 1]`: the formatter clamps anything outside
/// that range, so such a channel is not recovered.
#[verifier::rlimit(100)]
pub proof fn lemma_hex_round_trip(c: Color)
    requires
        0 <= c.r <= SCALE,
        0 <= c.g <= SCALE,
        0 <= c.b <= SCALE,
        0 <= c.a <= SCALE,
    ensures
        spec_from_hex(spec_as_hex(c, true)) is Ok,
        ({
            let p = spec_from_hex(spec_as_hex(c, true)).unwrap();
            &&& -SCALE <= 255 * (p.r - c.r) <= SCALE
            &&& -SCALE <= 255 * (p.g - c.g) <= SCALE
            &&& -SCALE <= 255 * (p.b - c.b) <= SCALE
            &&& -SCALE <= 255 * (p.a - c.a) <= SCALE
        }),
{
    let s = spec_as_hex(c, true);
    let rb = spec_channel_byte(c.r as int);
    let gb = spec_channel_byte(c.g as int);
    let bb = spec_channel_byte(c.b as int);
    let ab = spec_channel_byte(c.a as int);
    lemma_channel_quantization(c.r as int);
    lemma_channel_quantization(c.g as int);
    lemma_channel_quantization(c.b as int);
    lemma_channel_quantization(c.a as int);
    assert(s =~= seq![
        '#',
        spec_hex_digit(rb / 16),
        spec_hex_digit(rb % 16),
        spec_hex_digit(gb / 16),
        spec_hex_digit(gb % 16),
        spec_hex_digit(bb / 16),
        spec_hex_digit(bb % 16),
        spec_hex_digit(ab / 16),
        spec_hex_digit(ab % 16),
    ]);
    assert(spec_hex_prefix_len(s) == 1);
    lemma_hex_digit_round_trip(rb / 16);
    lemma_hex_digit_round_trip(rb % 16);
    lemma_hex_digit_round_trip(gb / 16);
    lemma_hex_digit_round_trip(gb % 16);
    lemma_hex_digit_round_trip(bb / 16);
    lemma_hex_digit_round_trip(bb % 16);
    lemma_hex_digit_round_trip(ab / 16);
    lemma_hex_digit_round_trip(ab % 16);
    assert(spec_byte_at(s, 1) == Some(16 * (rb / 16) + rb % 16));
    assert(16 * (rb / 16) + rb % 16 == rb);
    assert(16 * (gb / 16) + gb % 16 == gb);
    assert(16 * (bb / 16) + bb % 16 == bb);
    assert(16 * (ab / 16) + ab % 16 == ab);
}

/// All four channels lie within the arithmetic working range.
pub open spec fn channels_bounded(c: Color) -> bool {
    &&& -COLOR_LIMIT <= c.r <= COLOR_LIMIT
    &&& -COLOR_LIMIT <= c.g <= COLOR_LIMIT
    &&& -COLOR_LIMIT <= c.b <= COLOR_LIMIT
    &&& -COLOR_LIMIT <= c.a <= COLOR_LIMIT
}

/// The value of one hex digit character.
fn hex_val(c: char) -> (r: Option<u8>)
    ensures
        match spec_hex_val(c) {
            Some(v) => r == Some(v as u8),
            None => r is None,
        },
{
    match c {
        '0' => Some(0),
        '1' => Some(1),
        '2' => Some(2),
        '3' => Some(3),
        '4' => Some(4),
        '5' => Some(5),
        '6' => Some(6),
        '7' => Some(7),
        '8' => Some(8),
        '9' => Some(9),
        'a' | 'A' => Some(10),
        'b' | 'B' => Some(11),
        'c' | 'C' => Some(12),
        'd' | 'D' => Some(13),
        'e' | 'E' => Some(14),
        'f' | 'F' => Some(15),
        _ => None,
    }
}

/// The byte at positions `i`, `i + 1` of a hex string.
fn parse_byte(s: &str, i: usize) -> (r: Option<u8>)
    requires
        i + 2 <= s@.len(),
        i + 2 <= usize::MAX,
    ensures
        match spec_byte_at(s@, i as int) {
            Some(v) => r == Some(v as u8),
            None => r is None,
        },
{
    let hi = hex_val(s.get_char(i));
    let lo = hex_val(s.get_char(i + 1));
    match (hi, lo) {
        (Some(hi), Some(lo)) => Some(16 * hi + lo),
        _ => None,
    }
}

/// The fixed-point channel a quantized byte stands for.
fn byte_channel(b: u8) -> (v: i64)
    ensures
        v as int == spec_byte_channel(b as int),
        0 <= v <= SCALE,
{
    let v = rdiv64((b as i64) * SCALE, 255);
    proof {
        crate::num::lemma_rdiv_monotonic(0, b as int * SCALE as int, 255);
        crate::num::lemma_rdiv_monotonic(b as int * SCALE as int, 255 * SCALE as int, 255);
        crate::num::lemma_rdiv_exact(0, 255);
        crate::num::lemma_rdiv_exact(SCALE as int, 255);
        assert(0 * 255 == 0) by (nonlinear_arith);
        assert(SCALE as int * 255 == 255 * SCALE as int) by (nonlinear_arith);
        assert(b as int * SCALE as int <= 255 * SCALE as int) by (nonlinear_arith)
            requires
                b <= 255,
        ;
        assert(0 <= b as int * SCALE as int) by (nonlinear_arith);
    }
    v
}

} // verus!
