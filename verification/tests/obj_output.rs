//! OBJ mesh export: face materials, polyline records, and the Z offset
//! advancing per shape.

use denim::{Canvas, Color, LineEnd, ObjRenderer, ObjRendererSettings, Point, Renderer, Stroke, SCALE};

fn pt(x: i64, y: i64) -> Point {
    Point { x, y }
}

fn settings() -> ObjRendererSettings {
    ObjRendererSettings { z_offset: 1000, mtl_filename: String::from("scene.mtl") }
}

#[test]
fn two_filled_polygons_give_two_materials() {
    let mut canvas = Canvas::default();
    canvas.draw_polygon(vec![pt(0, 0), pt(SCALE, 0), pt(0, SCALE), pt(0, 0)], Color::red());
    canvas.draw_polygon(
        vec![pt(0, 0), pt(-SCALE, 0), pt(0, -SCALE), pt(0, 0)],
        Color::blue(),
    );

    let (obj, mtl) = canvas.render(ObjRenderer::new(settings()));

    assert_eq!(obj.matches("usemtl ").count(), 2);
    assert_eq!(mtl.matches("newmtl ").count(), 2);
    assert!(obj.contains("usemtl f0\n"));
    assert!(obj.contains("usemtl f1\n"));
    assert!(mtl.contains("newmtl f0\nKd 1 0 0\n"));
    assert!(mtl.contains("newmtl f1\nKd 0 0 1\n"));
}

#[test]
fn z_offset_strictly_increases_per_shape() {
    let mut canvas = Canvas::default();
    canvas.draw_polygon(vec![pt(0, 0), pt(SCALE, 0), pt(0, SCALE), pt(0, 0)], Color::red());
    canvas.draw_polygon(
        vec![pt(0, 0), pt(-SCALE, 0), pt(0, -SCALE), pt(0, 0)],
        Color::blue(),
    );

    let (obj, _) = canvas.render(ObjRenderer::new(settings()));

    let zs: Vec<f64> = obj
        .lines()
        .filter(|l| l.starts_with("v "))
        .map(|l| l.split(' ').nth(3).unwrap().parse().unwrap())
        .collect();
    assert_eq!(zs.len(), 8);
    assert!(zs[..4].iter().all(|z| *z == 0.0));
    assert!(zs[4..].iter().all(|z| *z == 0.1));
}

#[test]
fn unfilled_shape_becomes_polyline_record() {
    let mut canvas = Canvas::default();
    canvas.draw_polyline(
        vec![pt(0, 0), pt(SCALE, SCALE)],
        Stroke::new(Color::black(), 100, LineEnd::Butt),
    );

    let (obj, mtl) = canvas.render(ObjRenderer::new(settings()));

    assert!(obj.contains("l 1 2 \n"));
    assert_eq!(obj.matches("usemtl").count(), 0);
    assert_eq!(mtl.len(), 0);
}

#[test]
fn obj_references_material_library() {
    let canvas = Canvas::default();
    let (obj, _) = canvas.render(ObjRenderer::new(settings()));
    assert!(obj.starts_with("mtllib scene.mtl\n"));
}

#[test]
fn vertex_indices_continue_across_shapes() {
    let mut canvas = Canvas::default();
    canvas.draw_polygon(vec![pt(0, 0), pt(SCALE, 0), pt(0, SCALE), pt(0, 0)], Color::red());
    canvas.draw_polyline(
        vec![pt(0, 0), pt(SCALE, SCALE)],
        Stroke::new(Color::black(), 100, LineEnd::Butt),
    );
    let (obj, _) = canvas.render(ObjRenderer::new(settings()));
    assert!(obj.contains("f 1 2 3 4 \n"));
    assert!(obj.contains("l 5 6 \n"));
}
