//! Color hex codec round trips, parse failures, HSV conversion and
//! componentwise arithmetic.

use denim::{Color, ParseColorError, SCALE};

fn assert_channel_close(a: i64, b: i64) {
    assert!((a - b).abs() * 255 <= SCALE, "channels differ: {} vs {}", a, b);
}

fn assert_color_close(a: Color, b: Color) {
    assert_channel_close(a.r, b.r);
    assert_channel_close(a.g, b.g);
    assert_channel_close(a.b, b.b);
    assert_channel_close(a.a, b.a);
}

#[test]
fn hex_round_trip_white() {
    let c = Color::white();
    assert_eq!(c.as_hex(true), "#FFFFFFFF");
    let parsed = Color::from_hex(&c.as_hex(true)).unwrap();
    assert_eq!(parsed, c);
}

#[test]
fn hex_round_trip_black() {
    let c = Color::black();
    assert_eq!(c.as_hex(true), "#000000FF");
    let parsed = Color::from_hex(&c.as_hex(true)).unwrap();
    assert_eq!(parsed, c);
}

#[test]
fn hex_round_trip_half_alpha() {
    let c = Color::new(SCALE, SCALE / 4, 3 * SCALE / 4, SCALE / 2);
    let parsed = Color::from_hex(&c.as_hex(true)).unwrap();
    assert_color_close(parsed, c);
}

#[test]
fn hex_without_alpha_parses_opaque() {
    let parsed = Color::from_hex("#FFA500").unwrap();
    assert_eq!(parsed.a, SCALE);
    assert_eq!(parsed.r, SCALE);
    assert_eq!(parsed.g, 6471);
    assert_eq!(parsed.b, 0);
}

#[test]
fn hex_prefixes_are_accepted() {
    let bare = Color::from_hex("FF0000").unwrap();
    let hash = Color::from_hex("#FF0000").unwrap();
    let zero_x = Color::from_hex("0xFF0000").unwrap();
    assert_eq!(bare, Color::red());
    assert_eq!(hash, Color::red());
    assert_eq!(zero_x, Color::red());
}

#[test]
fn hex_too_short_fails() {
    assert_eq!(Color::from_hex("abc"), Err(ParseColorError::TooShort));
    assert_eq!(Color::from_hex(""), Err(ParseColorError::TooShort));
    assert_eq!(Color::from_hex("#12345"), Err(ParseColorError::TooShort));
    assert_eq!(Color::from_hex("#1234567"), Err(ParseColorError::TooShort));
}

#[test]
fn hex_invalid_digit_fails() {
    assert_eq!(Color::from_hex("zzzzzz"), Err(ParseColorError::InvalidDigit));
    assert_eq!(Color::from_hex("#12345g"), Err(ParseColorError::InvalidDigit));
}

#[test]
fn as_hex_clamps_out_of_range_channels() {
    let c = Color::new(2 * SCALE, -SCALE, SCALE, SCALE);
    assert_eq!(c.as_hex(false), "#FF00FF");
}

#[test]
fn from_hsv_primary_sectors() {
    // Full saturation and value at hue zero is pure red.
    let red = Color::from_hsv(0, SCALE, SCALE);
    assert_eq!(red.r, SCALE);
    assert_eq!(red.b, 0);
    assert_eq!(red.a, SCALE);
    // A third of the way around the wheel is pure green.
    let green = Color::from_hsv(SCALE / 3, SCALE, SCALE);
    assert!(green.g == SCALE, "green channel was {}", green.g);
    assert!(green.r <= SCALE / 50);
    // Zero saturation is a gray of the given value.
    let gray = Color::from_hsv(SCALE / 2, 0, SCALE / 2);
    assert_eq!(gray.r, gray.g);
    assert_eq!(gray.g, gray.b);
}

#[test]
fn componentwise_arithmetic() {
    let a = Color::new(SCALE, SCALE / 2, 0, SCALE);
    let b = Color::new(SCALE / 2, SCALE / 2, SCALE, SCALE);
    let sum = a.add(b);
    assert_eq!(sum.r, SCALE + SCALE / 2);
    assert_eq!(sum.a, 2 * SCALE);
    let diff = a.sub(b);
    assert_eq!(diff.b, -SCALE);
    let prod = a.mul(b);
    assert_eq!(prod.r, SCALE / 2);
    assert_eq!(prod.g, SCALE / 4);
    let scaled = a.mul_scalar(SCALE / 2);
    assert_eq!(scaled.r, SCALE / 2);
    assert_eq!(scaled.g, SCALE / 4);
    let quot = a.div_scalar(2 * SCALE);
    assert_eq!(quot.r, SCALE / 2);
    let rem = a.rem_scalar(3000);
    assert_eq!(rem.r, 1000);
    assert_eq!(rem.g, 2000);
}

#[test]
fn channel_accessors_and_mutators() {
    let mut c = Color::transparent();
    assert_eq!(c.r(), 0);
    *c.r_mut() = SCALE;
    *c.a_mut() = SCALE / 2;
    assert_eq!(c.r(), SCALE);
    assert_eq!(c.g(), 0);
    assert_eq!(c.a(), SCALE / 2);
}
