//! Camera transform behaviour: the pinned convention for translation,
//! rotation and zoom, and the world/camera round trip.

use denim::{Canvas, Point, SCALE};

/// One fixed-point unit.
const ONE: i64 = SCALE;

/// A quarter turn in raw radians.
const QUARTER_TURN: i64 = 15708;

/// Twice the unit, as a zoom factor.
const TWICE: i64 = 2 * SCALE;

/// Tolerance of one thousandth of a unit, in raw units.
const EPSILON: i64 = 10;

fn pt(x: i64, y: i64) -> Point {
    Point { x, y }
}

fn assert_pt_eq(a: Point, b: Point) {
    assert!(
        (a.x - b.x).abs() <= EPSILON && (a.y - b.y).abs() <= EPSILON,
        "points differ: ({}, {}) vs ({}, {})",
        a.x,
        a.y,
        b.x,
        b.y
    );
}

#[test]
fn no_transform_world_camera() {
    let canvas = Canvas::default();

    assert_pt_eq(canvas.to_camera_space(pt(0, 0)), pt(0, 0));
    assert_pt_eq(canvas.to_camera_space(pt(ONE, ONE)), pt(ONE, ONE));
    assert_pt_eq(canvas.to_camera_space(pt(-ONE, -ONE)), pt(-ONE, -ONE));
    assert_pt_eq(canvas.to_camera_space(pt(-ONE, ONE)), pt(-ONE, ONE));
    assert_pt_eq(canvas.to_camera_space(pt(ONE, -ONE)), pt(ONE, -ONE));
}

#[test]
fn no_transform_camera_world() {
    let canvas = Canvas::default();

    assert_pt_eq(canvas.to_world_space(pt(0, 0)), pt(0, 0));
    assert_pt_eq(canvas.to_world_space(pt(ONE, ONE)), pt(ONE, ONE));
    assert_pt_eq(canvas.to_world_space(pt(-ONE, -ONE)), pt(-ONE, -ONE));
    assert_pt_eq(canvas.to_world_space(pt(-ONE, ONE)), pt(-ONE, ONE));
    assert_pt_eq(canvas.to_world_space(pt(ONE, -ONE)), pt(ONE, -ONE));
}

#[test]
fn translate_transform_world_camera() {
    let mut canvas = Canvas::default();

    canvas.move_camera(pt(ONE, ONE));

    assert_pt_eq(canvas.to_camera_space(pt(0, 0)), pt(-ONE, -ONE));
    assert_pt_eq(canvas.to_camera_space(pt(ONE, ONE)), pt(0, 0));
    assert_pt_eq(canvas.to_camera_space(pt(-ONE, -ONE)), pt(-2 * ONE, -2 * ONE));
    assert_pt_eq(canvas.to_camera_space(pt(-ONE, ONE)), pt(-2 * ONE, 0));
    assert_pt_eq(canvas.to_camera_space(pt(ONE, -ONE)), pt(0, -2 * ONE));
}

#[test]
fn translate_transform_camera_world() {
    let mut canvas = Canvas::default();

    canvas.move_camera(pt(ONE, ONE));

    assert_pt_eq(canvas.to_world_space(pt(0, 0)), pt(ONE, ONE));
    assert_pt_eq(canvas.to_world_space(pt(ONE, ONE)), pt(2 * ONE, 2 * ONE));
    assert_pt_eq(canvas.to_world_space(pt(-ONE, -ONE)), pt(0, 0));
    assert_pt_eq(canvas.to_world_space(pt(-ONE, ONE)), pt(0, 2 * ONE));
    assert_pt_eq(canvas.to_world_space(pt(ONE, -ONE)), pt(2 * ONE, 0));
}

#[test]
fn rotate_transform_world_camera() {
    let mut canvas = Canvas::default();

    canvas.rotate_camera(QUARTER_TURN);

    assert_pt_eq(canvas.to_camera_space(pt(0, 0)), pt(0, 0));
    assert_pt_eq(canvas.to_camera_space(pt(ONE, ONE)), pt(-ONE, ONE));
    assert_pt_eq(canvas.to_camera_space(pt(-ONE, -ONE)), pt(ONE, -ONE));
    assert_pt_eq(canvas.to_camera_space(pt(-ONE, ONE)), pt(-ONE, -ONE));
    assert_pt_eq(canvas.to_camera_space(pt(ONE, -ONE)), pt(ONE, ONE));
}

#[test]
fn rotate_transform_camera_world() {
    let mut canvas = Canvas::default();

    canvas.rotate_camera(QUARTER_TURN);

    assert_pt_eq(canvas.to_world_space(pt(0, 0)), pt(0, 0));
    assert_pt_eq(canvas.to_world_space(pt(ONE, ONE)), pt(ONE, -ONE));
    assert_pt_eq(canvas.to_world_space(pt(-ONE, -ONE)), pt(-ONE, ONE));
    assert_pt_eq(canvas.to_world_space(pt(-ONE, ONE)), pt(ONE, ONE));
    assert_pt_eq(canvas.to_world_space(pt(ONE, -ONE)), pt(-ONE, -ONE));
}

#[test]
fn zoom_transform_world_camera() {
    let mut canvas = Canvas::default();

    canvas.zoom_camera(TWICE);

    assert_pt_eq(canvas.to_camera_space(pt(0, 0)), pt(0, 0));
    assert_pt_eq(canvas.to_camera_space(pt(ONE, ONE)), pt(2 * ONE, 2 * ONE));
    assert_pt_eq(canvas.to_camera_space(pt(-ONE, -ONE)), pt(-2 * ONE, -2 * ONE));
    assert_pt_eq(canvas.to_camera_space(pt(-ONE, ONE)), pt(-2 * ONE, 2 * ONE));
    assert_pt_eq(canvas.to_camera_space(pt(ONE, -ONE)), pt(2 * ONE, -2 * ONE));
}

#[test]
fn zoom_transform_camera_world() {
    let mut canvas = Canvas::default();

    canvas.zoom_camera(TWICE);

    assert_pt_eq(canvas.to_world_space(pt(0, 0)), pt(0, 0));
    assert_pt_eq(canvas.to_world_space(pt(ONE, ONE)), pt(ONE / 2, ONE / 2));
    assert_pt_eq(canvas.to_world_space(pt(-ONE, -ONE)), pt(-ONE / 2, -ONE / 2));
    assert_pt_eq(canvas.to_world_space(pt(-ONE, ONE)), pt(-ONE / 2, ONE / 2));
    assert_pt_eq(canvas.to_world_space(pt(ONE, -ONE)), pt(ONE / 2, -ONE / 2));
}

#[test]
fn full_transform_world_camera() {
    let mut canvas = Canvas::default();

    canvas.move_camera(pt(ONE, ONE));
    canvas.rotate_camera(QUARTER_TURN);
    canvas.zoom_camera(TWICE);

    assert_pt_eq(canvas.to_camera_space(pt(0, 0)), pt(2 * ONE, -2 * ONE));
    assert_pt_eq(canvas.to_camera_space(pt(ONE, ONE)), pt(0, 0));
    assert_pt_eq(canvas.to_camera_space(pt(-ONE, -ONE)), pt(4 * ONE, -4 * ONE));
    assert_pt_eq(canvas.to_camera_space(pt(-ONE, ONE)), pt(0, -4 * ONE));
    assert_pt_eq(canvas.to_camera_space(pt(ONE, -ONE)), pt(4 * ONE, 0));
}

#[test]
fn full_transform_camera_world() {
    let mut canvas = Canvas::default();

    canvas.move_camera(pt(ONE, ONE));
    canvas.rotate_camera(QUARTER_TURN);
    canvas.zoom_camera(TWICE);

    assert_pt_eq(canvas.to_world_space(pt(0, 0)), pt(ONE, ONE));
    assert_pt_eq(canvas.to_world_space(pt(ONE, ONE)), pt(ONE + ONE / 2, ONE / 2));
    assert_pt_eq(canvas.to_world_space(pt(-ONE, -ONE)), pt(ONE / 2, ONE + ONE / 2));
    assert_pt_eq(canvas.to_world_space(pt(-ONE, ONE)), pt(ONE + ONE / 2, ONE + ONE / 2));
    assert_pt_eq(canvas.to_world_space(pt(ONE, -ONE)), pt(ONE / 2, ONE / 2));
}

#[test]
fn default_camera_is_exact_identity() {
    let canvas = Canvas::default();
    let samples = [pt(0, 0), pt(ONE, ONE), pt(-ONE, -ONE), pt(-ONE, ONE), pt(ONE, -ONE)];
    for p in samples {
        assert_eq!(canvas.to_camera_space(p), p);
        assert_eq!(canvas.to_world_space(p), p);
    }
}

#[test]
fn round_trip_through_composed_camera() {
    let mut canvas = Canvas::default();
    canvas.move_camera(pt(3 * ONE / 2, -ONE / 4));
    canvas.rotate_camera(QUARTER_TURN / 3);
    canvas.zoom_camera(3 * SCALE / 2);
    canvas.rotate_camera(-QUARTER_TURN / 7);
    canvas.move_camera(pt(-ONE / 3, ONE / 5));

    let samples = [pt(0, 0), pt(ONE, ONE), pt(-ONE, -ONE), pt(-ONE, ONE), pt(ONE, -ONE)];
    for p in samples {
        let there = canvas.to_camera_space(p);
        let back = canvas.to_world_space(there);
        assert_pt_eq(back, p);
        let out = canvas.to_world_space(p);
        let and_back = canvas.to_camera_space(out);
        assert_pt_eq(and_back, p);
    }
}
