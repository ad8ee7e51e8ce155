use mesh_evolve::point::Point;
use mesh_evolve::tri::Tri;

#[test]
fn point_new_holds_coordinates() {
    let p = Point::new(123, 456);
    assert_eq!(p.x, 123);
    assert_eq!(p.y, 456);
}

#[test]
fn point_scale_up_multiplies() {
    let p = Point::new(100, 200);
    let q = p.scale_up((3, 2));
    assert_eq!(q.x, 300);
    assert_eq!(q.y, 400);
}

#[test]
fn point_scale_down_divides() {
    let p = Point::new(100, 201);
    let q = p.scale_down((2, 2));
    assert_eq!(q.x, 50);
    assert_eq!(q.y, 100);
}

#[test]
fn tri_area_right_triangle() {
    let t = Tri::new(Point::new(0, 0), Point::new(100, 0), Point::new(0, 100));
    // Doubled area 10000, halved to whole units.
    assert_eq!(t.area(), 5000);
}

#[test]
fn tri_area_degenerate_is_zero() {
    let t = Tri::new(Point::new(10, 10), Point::new(20, 20), Point::new(30, 30));
    assert_eq!(t.area(), 0);
}

#[test]
fn tri_area_full_canvas() {
    // The largest triangle on the canvas: half the square.
    let t = Tri::new(Point::new(0, 0), Point::new(65535, 0), Point::new(0, 65535));
    assert_eq!(t.area() as i64, 65535i64 * 65535 / 2);
}

#[test]
fn tri_contains_inside_and_outside() {
    let t = Tri::new(Point::new(0, 0), Point::new(10, 0), Point::new(0, 10));
    assert!(t.contains(Point::new(1, 1)));
    assert!(t.contains(Point::new(0, 0)));
    assert!(t.contains(Point::new(5, 5)));
    assert!(!t.contains(Point::new(6, 5)));
    assert!(!t.contains(Point::new(11, 0)));
}

#[test]
fn tri_rasterize_full_flags() {
    let t = Tri::new(Point::new(0, 0), Point::new(4, 0), Point::new(0, 4));
    let pts = t.rasterize(true, true, true);
    // All lattice points with x + y <= 4.
    assert_eq!(pts.len(), 15);
    assert!(pts.contains(&Point::new(0, 0)));
    assert!(pts.contains(&Point::new(4, 0)));
    assert!(pts.contains(&Point::new(0, 4)));
    assert!(pts.contains(&Point::new(1, 2)));
    assert!(!pts.contains(&Point::new(3, 2)));
}

#[test]
fn tri_rasterize_suppressed_edge() {
    let t = Tri::new(Point::new(0, 0), Point::new(4, 0), Point::new(0, 4));
    // Suppress the side between the first and third corner: the column
    // x == 0 of five points stays out.
    let pts = t.rasterize(true, true, false);
    assert_eq!(pts.len(), 10);
    assert!(!pts.contains(&Point::new(0, 0)));
    assert!(!pts.contains(&Point::new(0, 4)));
    assert!(pts.contains(&Point::new(1, 0)));
}

#[test]
fn tri_rasterize_degenerate_emits_nothing() {
    let t = Tri::new(Point::new(5, 5), Point::new(10, 10), Point::new(15, 15));
    let pts = t.rasterize(true, true, true);
    assert_eq!(pts.len(), 0);
}

#[test]
fn draw_triangle_degenerate_emits_nothing() {
    let t = Tri::new(Point::new(0, 7), Point::new(100, 7), Point::new(200, 7));
    assert_eq!(t.draw_triangle().len(), 0);
}

#[test]
fn draw_triangle_stays_in_bounding_box() {
    let t = Tri::new(Point::new(10, 5), Point::new(90, 40), Point::new(30, 80));
    let pts = t.draw_triangle();
    assert!(!pts.is_empty());
    for p in &pts {
        assert!(10 <= p.x && p.x < 90);
        assert!(5 <= p.y && p.y < 80);
    }
}
