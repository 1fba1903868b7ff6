//! Path building: pen movement, run archiving, closing, bezier
//! flattening, and how fills and strokes are split over runs.

use denim::{Canvas, Color, LineEnd, PathBuilder, Point, Stroke, SCALE};

fn pt(x: i64, y: i64) -> Point {
    Point { x, y }
}

fn stroke() -> Stroke {
    Stroke::new(Color::black(), 100, LineEnd::Butt)
}

#[test]
fn closed_triangle_path_draws_fill_and_stroke() {
    let mut canvas = Canvas::default();
    let a = pt(0, 0);
    let b = pt(SCALE, 0);
    let c = pt(0, SCALE);
    canvas.draw_path(Some(stroke()), Some(Color::red()), |p| {
        p.move_to(a).line_to(b).line_to(c).close()
    });

    let shapes = canvas.as_raw();
    assert_eq!(shapes.len(), 2);
    // The fill spans the whole path and carries no stroke.
    assert_eq!(shapes[0].points, vec![a, b, c, a]);
    assert!(shapes[0].stroke.is_none());
    assert!(shapes[0].fill == Some(Color::red()));
    // The stroke is its own shape without a fill.
    assert_eq!(shapes[1].points, vec![a, b, c, a]);
    assert!(shapes[1].stroke.is_some());
    assert!(shapes[1].fill.is_none());
}

#[test]
fn move_to_splits_stroke_runs_but_not_the_fill() {
    let mut canvas = Canvas::default();
    let a = pt(0, 0);
    let b = pt(SCALE, 0);
    let c = pt(0, SCALE);
    let d = pt(SCALE, SCALE);
    canvas.draw_path(Some(stroke()), Some(Color::green()), |p| {
        p.move_to(a).line_to(b).move_to(c).line_to(d)
    });

    let shapes = canvas.as_raw();
    // One fill over both runs, then one stroke shape per run.
    assert_eq!(shapes.len(), 3);
    assert_eq!(shapes[0].points, vec![a, b, c, d]);
    assert!(shapes[0].fill == Some(Color::green()));
    assert_eq!(shapes[1].points, vec![a, b]);
    assert_eq!(shapes[2].points, vec![c, d]);
    assert!(shapes[1].fill.is_none() && shapes[2].fill.is_none());
}

#[test]
fn line_to_drops_zero_length_segments() {
    let b = PathBuilder::new(1000);
    let b = b.move_to(pt(100, 100));
    let b = b.line_to(pt(100, 100));
    let b = b.line_to(pt(200, 100));
    assert_eq!(b.current_shape, vec![pt(100, 100), pt(200, 100)]);
}

#[test]
fn quadratic_bezier_flattens_to_expected_count() {
    let mut canvas = Canvas::default();
    let start = pt(0, 0);
    let control = pt(SCALE / 2, SCALE / 2);
    let end = pt(SCALE, 0);
    canvas.draw_quadratic_bezier(start, control, end, Some(stroke()), None);

    let shapes = canvas.as_raw();
    assert_eq!(shapes.len(), 1);
    let pts = &shapes[0].points;
    // Control polygon length is sqrt(2) units; at 1000 points per unit the
    // curve flattens to 1414 emitted points after the start.
    assert_eq!(pts.len(), 1415);
    assert_eq!(pts[0], start);
    assert_eq!(*pts.last().unwrap(), end);
    // The curve's midpoint passes through (0.5, 0.25).
    let mid = pts[707];
    assert!((mid.x - SCALE / 2).abs() <= 20, "mid.x was {}", mid.x);
    assert!((mid.y - SCALE / 4).abs() <= 20, "mid.y was {}", mid.y);
}

#[test]
fn cubic_bezier_ends_exactly_at_its_endpoint() {
    let mut canvas = Canvas::default();
    let start = pt(-SCALE, 0);
    let c0 = pt(-SCALE / 2, SCALE);
    let c1 = pt(SCALE / 2, -SCALE);
    let end = pt(SCALE, 0);
    canvas.draw_cubic_bezier(start, c0, c1, end, Some(stroke()), None);

    let shapes = canvas.as_raw();
    assert_eq!(shapes.len(), 1);
    let pts = &shapes[0].points;
    assert!(pts.len() > 100);
    assert_eq!(pts[0], start);
    assert_eq!(*pts.last().unwrap(), end);
}

#[test]
fn degenerate_curve_emits_no_points() {
    let b = PathBuilder::new(1000);
    let b = b.move_to(pt(500, 500));
    let b = b.quadratic_bezier_to(pt(500, 500), pt(500, 500));
    assert_eq!(b.current_shape, vec![pt(500, 500)]);
}

#[test]
fn close_returns_to_first_archived_run_start() {
    let b = PathBuilder::new(1000);
    let b = b.move_to(pt(100, 0)).line_to(pt(200, 0));
    let b = b.move_to(pt(300, 0)).line_to(pt(400, 0));
    let b = b.close();
    assert_eq!(*b.current_shape.last().unwrap(), pt(100, 0));
}

#[test]
fn path_absolute_stores_points_unchanged() {
    let mut canvas = Canvas::default();
    canvas.zoom_camera(2 * SCALE);
    let a = pt(0, 0);
    let b = pt(SCALE, 0);
    canvas.draw_path_absolute(Some(stroke()), None, |p| p.move_to(a).line_to(b));
    let shapes = canvas.as_raw();
    assert_eq!(shapes.len(), 1);
    assert_eq!(shapes[0].points, vec![a, b]);
}
