//! Shape storage behaviour: degenerate shapes, deduplication, polygon
//! classification, and the regular polygon generator.

use denim::{Canvas, Color, LineEnd, Point, Shape, Stroke, SCALE};
use denim::geometry::regular_polygon_points;

fn pt(x: i64, y: i64) -> Point {
    Point { x, y }
}

#[test]
fn empty_shape_is_dropped() {
    let mut canvas = Canvas::default();
    canvas.draw_shape(vec![], None, Some(Color::red()));
    assert_eq!(canvas.as_raw().len(), 0);
}

#[test]
fn single_point_shape_is_dropped() {
    let mut canvas = Canvas::default();
    canvas.draw_shape(vec![pt(100, 100)], None, Some(Color::red()));
    assert_eq!(canvas.as_raw().len(), 0);
}

#[test]
fn all_duplicate_shape_is_dropped() {
    let mut canvas = Canvas::default();
    let p = pt(2500, -2500);
    canvas.draw_shape(vec![p, p, p, p], Some(Stroke::new(Color::black(), 100, LineEnd::Butt)), None);
    assert_eq!(canvas.as_raw().len(), 0);
}

#[test]
fn adjacent_duplicates_are_collapsed() {
    let mut canvas = Canvas::default();
    let a = pt(0, 0);
    let b = pt(SCALE, 0);
    let c = pt(SCALE, SCALE);
    canvas.draw_shape(vec![a, a, b, b, b, c], None, Some(Color::blue()));
    assert_eq!(canvas.as_raw().len(), 1);
    assert_eq!(canvas.as_raw()[0].points, vec![a, b, c]);
}

#[test]
fn absolute_entry_point_keeps_points_as_given() {
    let mut canvas = Canvas::default();
    let a = pt(0, 0);
    let b = pt(SCALE, 0);
    canvas.draw_shape_absolute(vec![a, a, b], None, Some(Color::blue()));
    assert_eq!(canvas.as_raw().len(), 1);
    assert_eq!(canvas.as_raw()[0].points, vec![a, a, b]);
}

#[test]
fn polygon_classification_is_exact() {
    let a = pt(0, 0);
    let b = pt(SCALE, 0);
    let c = pt(0, SCALE);

    let closed = Shape { points: vec![a, b, c, a], stroke: None, fill: None };
    assert!(closed.is_polygon());

    let nearly_closed =
        Shape { points: vec![a, b, c, pt(1, 0)], stroke: None, fill: None };
    assert!(!nearly_closed.is_polygon());

    let too_short = Shape { points: vec![a, a], stroke: None, fill: None };
    assert!(!too_short.is_polygon());
}

#[test]
fn regular_polygon_has_closing_point() {
    let pts = regular_polygon_points(pt(0, 0), 8, 3000, 0);
    assert_eq!(pts.len(), 9);
    assert_eq!(pts[0], pts[8]);
}

#[test]
fn regular_polygon_vertices_lie_on_the_circle() {
    let center = pt(1000, -2000);
    let radius: i64 = 5000;
    let pts = regular_polygon_points(center, 12, radius, 0);
    assert_eq!(pts.len(), 13);
    for p in &pts {
        let dx = (p.x - center.x) as f64;
        let dy = (p.y - center.y) as f64;
        let d = (dx * dx + dy * dy).sqrt();
        assert!(
            (d - radius as f64).abs() <= 10.0,
            "vertex ({}, {}) at distance {}",
            p.x,
            p.y,
            d
        );
    }
}

#[test]
fn regular_polygon_draw_appends_one_shape() {
    let mut canvas = Canvas::default();
    canvas.draw_regular_polygon(pt(0, 0), 5, 4000, 0, None, Some(Color::green()));
    assert_eq!(canvas.as_raw().len(), 1);
    assert_eq!(canvas.as_raw()[0].points.len(), 6);
    assert!(canvas.as_raw()[0].fill == Some(Color::green()));
}

#[test]
fn tiny_circle_is_skipped() {
    let mut canvas = Canvas::default();
    canvas.draw_circle(pt(0, 0), 1, None, Some(Color::red()));
    assert_eq!(canvas.as_raw().len(), 0);
}

#[test]
fn circle_side_count_follows_resolution() {
    let mut canvas = Canvas::default();
    canvas.draw_circle(pt(0, 0), 5000, None, Some(Color::red()));
    assert_eq!(canvas.as_raw().len(), 1);
    // Circumference of half a unit at 1000 points per unit: pi thousand
    // sides, plus the closing point.
    assert_eq!(canvas.as_raw()[0].points.len(), 3142);
}

#[test]
fn clear_removes_all_shapes() {
    let mut canvas = Canvas::default();
    canvas.draw_line(pt(0, 0), pt(SCALE, SCALE), Some(Stroke::new(Color::black(), 100, LineEnd::Round)), None);
    canvas.draw_rect(pt(-SCALE, -SCALE), pt(SCALE, SCALE), None, Some(Color::white()));
    assert_eq!(canvas.as_raw().len(), 2);
    canvas.clear();
    assert_eq!(canvas.as_raw().len(), 0);
}

#[test]
fn point_rotation_by_a_quarter_turn() {
    let p = pt(SCALE, 0);
    let r = p.rotate(15708);
    assert!(r.x.abs() <= 10, "x was {}", r.x);
    assert!((r.y - SCALE).abs() <= 10, "y was {}", r.y);
    let back = r.rotate(-15708);
    assert!((back.x - SCALE).abs() <= 10 && back.y.abs() <= 10);
}

#[test]
fn undo_pops_only_the_last_shape() {
    let mut canvas = Canvas::default();
    canvas.draw_rect(pt(-SCALE, -SCALE), pt(0, 0), None, Some(Color::red()));
    canvas.draw_rect(pt(0, 0), pt(SCALE, SCALE), None, Some(Color::blue()));
    canvas.undo();
    assert_eq!(canvas.as_raw().len(), 1);
    assert!(canvas.as_raw()[0].fill == Some(Color::red()));
    canvas.undo();
    canvas.undo();
    assert_eq!(canvas.as_raw().len(), 0);
}

#[test]
fn render_scales_stroke_width_by_zoom() {
    let mut canvas = Canvas::default();
    canvas.zoom_camera(2 * SCALE);
    canvas.draw_line(pt(0, 0), pt(SCALE, 0), Some(Stroke::new(Color::black(), 100, LineEnd::Butt)), None);
    let shape = &canvas.as_raw()[0];
    let transformed = canvas.shape_to_camera(shape);
    assert_eq!(transformed.stroke.unwrap().width, 200);
}
