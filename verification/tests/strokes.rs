//! Stroke tessellation and the shared device mapping of raster backends.

use denim::{LineEnd, Point, SCALE};
use denim::stroke_geometry::{device_path_points, device_scale_offset, stroke_polygons};

fn pt(x: i64, y: i64) -> Point {
    Point { x, y }
}

#[test]
fn single_segment_butt_stroke_is_three_quads() {
    let polys = stroke_polygons(&vec![pt(0, 0), pt(SCALE, 0)], 2000, LineEnd::Butt);
    assert_eq!(polys.len(), 3);
    // The segment quad covers both sides of the line.
    assert_eq!(
        polys[0],
        vec![pt(0, 1000), pt(0, -1000), pt(SCALE, -1000), pt(SCALE, 1000)]
    );
    // The start cap extends backward past the first point.
    assert_eq!(
        polys[1],
        vec![pt(-1000, 1000), pt(-1000, -1000), pt(0, -1000), pt(0, 1000)]
    );
    // The end cap extends forward past the last point.
    assert_eq!(
        polys[2],
        vec![
            pt(SCALE + 1000, 1000),
            pt(SCALE + 1000, -1000),
            pt(SCALE, -1000),
            pt(SCALE, 1000)
        ]
    );
}

#[test]
fn round_caps_are_half_circle_fans() {
    let polys = stroke_polygons(&vec![pt(0, 0), pt(SCALE, 0)], 2000, LineEnd::Round);
    assert_eq!(polys.len(), 3);
    assert_eq!(polys[1].len(), 34);
    assert_eq!(polys[2].len(), 34);
    // Every fan vertex of the start cap sits half a width from the end
    // point, on the far side of the line start.
    for v in &polys[1][1..33] {
        let dx = v.x as f64;
        let dy = v.y as f64;
        let d = (dx * dx + dy * dy).sqrt();
        assert!((d - 1000.0).abs() <= 10.0, "fan vertex at distance {}", d);
        assert!(v.x <= 1);
    }
}

#[test]
fn polyline_gets_one_quad_per_segment() {
    let pts = vec![pt(0, 0), pt(SCALE, 0), pt(SCALE, SCALE), pt(0, SCALE)];
    let polys = stroke_polygons(&pts, 1000, LineEnd::Butt);
    // Three segments plus two caps.
    assert_eq!(polys.len(), 5);
    for p in &polys {
        assert_eq!(p.len(), 4);
    }
}

#[test]
fn device_mapping_centers_and_scales() {
    let (scale, ox, oy) = device_scale_offset(pt(100 * SCALE, 100 * SCALE), true);
    assert_eq!(scale, 50 * SCALE);
    assert_eq!(ox, SCALE);
    assert_eq!(oy, SCALE);

    let path = device_path_points(&vec![pt(0, 0), pt(SCALE, SCALE)], scale, ox, oy);
    assert_eq!(path, vec![pt(50 * SCALE, 50 * SCALE), pt(100 * SCALE, 0)]);
}

#[test]
fn closed_outline_gets_a_seam_segment() {
    let (scale, ox, oy) = device_scale_offset(pt(100 * SCALE, 100 * SCALE), true);
    let pts = vec![pt(0, 0), pt(SCALE, 0), pt(0, SCALE), pt(0, 0)];
    let path = device_path_points(&pts, scale, ox, oy);
    assert_eq!(path.len(), 5);
    assert_eq!(path[4], path[1]);
}

#[test]
fn uneven_output_keeps_one_axis() {
    let (scale, ox, oy) = device_scale_offset(pt(200 * SCALE, 100 * SCALE), true);
    assert_eq!(scale, 50 * SCALE);
    // The wider axis is centered: its offset spans two camera units.
    assert_eq!(ox, 2 * SCALE);
    assert_eq!(oy, SCALE);
}
