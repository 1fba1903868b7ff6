//! SVG renderer output: document structure, the fill attribute, circle
//! detection, integer rounding and the background rectangle.

use denim::{Canvas, Color, LineEnd, Point, Renderer, Stroke, SvgRenderer, SCALE};

fn pt(x: i64, y: i64) -> Point {
    Point { x, y }
}

/// One hundred device units.
const HUNDRED: i64 = 100 * SCALE;

#[test]
fn filled_rect_renders_as_one_polygon() {
    let mut canvas = Canvas::default();
    let orange = Color::from_hex("#FFA500").unwrap();
    canvas.draw_rect(pt(-9000, -9000), pt(9000, 9000), None, Some(orange));

    let svg = canvas.render(SvgRenderer::new(pt(HUNDRED, HUNDRED), None, false, true, 32));

    assert!(svg.starts_with("<svg xmlns=\"http://www.w3.org/2000/svg\" width=\"100\" height=\"100\">"));
    assert!(svg.ends_with("</svg>"));
    assert_eq!(svg.matches("<polygon").count(), 1);
    assert_eq!(svg.matches("<polyline").count(), 0);
    assert_eq!(svg.matches("<circle").count(), 0);
    assert_eq!(svg.matches("<rect").count(), 0);
    assert!(svg.contains("fill:#FFA500;"));
}

#[test]
fn background_rect_is_emitted() {
    let canvas = Canvas::default();
    let svg = canvas.render(SvgRenderer::new(
        pt(HUNDRED, HUNDRED),
        Some(Color::black()),
        false,
        true,
        32,
    ));
    assert!(svg.contains("<rect fill=\"#000000\" width=\"100\" height=\"100\"/>"));
}

#[test]
fn circle_is_detected_and_emitted_compactly() {
    let mut canvas = Canvas::default();
    canvas.draw_circle(pt(0, 0), 5000, None, Some(Color::red()));
    let svg = canvas.render(SvgRenderer::new(pt(HUNDRED, HUNDRED), None, false, true, 32));
    assert_eq!(svg.matches("<circle").count(), 1);
    assert_eq!(svg.matches("<polygon").count(), 0);
    let cx = attr_value(&svg, "cx=\"");
    let cy = attr_value(&svg, "cy=\"");
    let r = attr_value(&svg, "r=\"");
    assert!((cx - 50.0).abs() < 0.1, "cx was {}", cx);
    assert!((cy - 50.0).abs() < 0.1, "cy was {}", cy);
    assert!((r - 25.0).abs() < 0.1, "r was {}", r);
}

#[test]
fn distorted_shape_is_not_a_circle() {
    let mut canvas = Canvas::default();
    let mut pts = denim::geometry::regular_polygon_points(pt(0, 0), 100, 10000, 0);
    // Pull one vertex halfway toward the center: every other vertex still
    // sits on the circle, but the shape is no circle and must stay a
    // polygon.
    pts[50] = pt(pts[50].x / 2, pts[50].y / 2);
    canvas.draw_shape_absolute(pts, None, Some(Color::red()));
    let svg = canvas.render(SvgRenderer::new(pt(HUNDRED, HUNDRED), None, false, true, 32));
    assert_eq!(svg.matches("<circle").count(), 0);
    assert_eq!(svg.matches("<polygon").count(), 1);
}

/// The numeric value of the first occurrence of an attribute.
fn attr_value(svg: &str, key: &str) -> f64 {
    let start = svg.find(key).unwrap() + key.len();
    let rest = &svg[start..];
    let end = rest.find('"').unwrap();
    rest[..end].parse().unwrap()
}

#[test]
fn open_shape_renders_as_polyline() {
    let mut canvas = Canvas::default();
    canvas.draw_polyline(
        vec![pt(-5000, 0), pt(0, 5000), pt(5000, 0)],
        Stroke::new(Color::blue(), 100, LineEnd::Round),
    );
    let svg = canvas.render(SvgRenderer::new(pt(HUNDRED, HUNDRED), None, false, true, 32));
    assert_eq!(svg.matches("<polyline").count(), 1);
    assert!(svg.contains("stroke:#0000FF;"));
    assert!(svg.contains("stroke-linecap:round;"));
    assert!(svg.contains("fill:none;"));
}

#[test]
fn ints_only_rounds_coordinates() {
    let mut canvas = Canvas::default();
    canvas.draw_line(
        pt(0, 0),
        pt(SCALE, SCALE),
        Some(Stroke::new(Color::black(), 100, LineEnd::Butt)),
        None,
    );
    let svg = canvas.render(SvgRenderer::new(pt(HUNDRED, HUNDRED), None, true, true, 32));
    // Camera center maps to device (50, 50) and the unit corner to (100, 0).
    assert!(svg.contains("50,50 "));
    assert!(svg.contains("100,0 "));
}

#[test]
fn stroke_opacity_only_when_translucent() {
    let mut canvas = Canvas::default();
    let translucent = Color::new(SCALE, 0, 0, SCALE / 2);
    canvas.draw_line(
        pt(0, 0),
        pt(SCALE, 0),
        Some(Stroke::new(translucent, 100, LineEnd::Butt)),
        None,
    );
    canvas.draw_line(
        pt(0, 0),
        pt(0, SCALE),
        Some(Stroke::new(Color::black(), 100, LineEnd::Butt)),
        None,
    );
    let svg = canvas.render(SvgRenderer::new(pt(HUNDRED, HUNDRED), None, false, true, 32));
    assert_eq!(svg.matches("stroke-opacity:0.5;").count(), 1);
}

#[test]
fn degenerate_shape_adds_no_markup() {
    let mut canvas = Canvas::default();
    canvas.draw_shape_absolute(vec![pt(0, 0)], None, Some(Color::red()));
    let svg = canvas.render(SvgRenderer::new(pt(HUNDRED, HUNDRED), None, false, true, 32));
    assert_eq!(svg.matches("<polygon").count(), 0);
    assert_eq!(svg.matches("<polyline").count(), 0);
}
