use mesh_evolve::grid::{GridImage, GridVertex};
use mesh_evolve::point::Point;
use mesh_evolve::polygon::Polygon;
use mesh_evolve::tri::Tri;

#[test]
fn polygon_sample_lands_in_a_fan_triangle() {
    let root = Point::new(100, 100);
    let corners = [
        Point::new(50, 50),
        Point::new(150, 50),
        Point::new(150, 150),
        Point::new(50, 150),
    ];
    let edges = vec![
        (corners[0], corners[1]),
        (corners[1], corners[2]),
        (corners[2], corners[3]),
        (corners[3], corners[0]),
    ];
    let poly = Polygon::new(root, edges.clone());
    for _ in 0..500 {
        let p = poly.get_random_point();
        // The sum-of-areas identity places the sample inside one of the
        // fan triangles (the root itself is the degenerate fallback and
        // lies in every fan triangle here).
        let inside = edges
            .iter()
            .any(|(a, b)| Tri::new(root, *a, *b).contains(p));
        assert!(inside, "sample {:?} outside the star polygon", p);
        // Which also keeps it inside the star's bounding box.
        assert!(50 <= p.x && p.x <= 150);
        assert!(50 <= p.y && p.y <= 150);
    }
}

#[test]
fn parallelogram_fold_exact_values() {
    // All the weight on one corner picks that corner's coordinate.
    assert_eq!(mesh_evolve::polygon::convex_coord(0, 65536, 0, 5, 9, 13), 9);
    assert_eq!(mesh_evolve::polygon::convex_coord(65536, 0, 0, 5, 9, 13), 5);
    // An even split between two corners averages them.
    assert_eq!(mesh_evolve::polygon::convex_coord(32768, 32768, 0, 0, 100, 200), 50);
    // The division floors.
    assert_eq!(mesh_evolve::polygon::convex_coord(32768, 32768, 0, 0, 101, 200), 50);
}

#[test]
fn polygon_degenerate_returns_root() {
    let root = Point::new(777, 888);
    let edges = vec![
        (Point::new(777, 888), Point::new(777, 888)),
        (Point::new(777, 888), Point::new(777, 888)),
    ];
    let poly = Polygon::new(root, edges);
    for _ in 0..50 {
        assert_eq!(poly.get_random_point(), root);
    }
}

#[test]
fn polygon_empty_fan_returns_root() {
    let root = Point::new(1, 2);
    let poly = Polygon::new(root, Vec::new());
    assert_eq!(poly.get_random_point(), root);
}

/// Every triangle of the mesh passes the sum-of-areas identity for each of
/// its own corners, which also exercises the area arithmetic for overflow.
fn assert_mesh_consistent(image: &GridImage) {
    for (t, _colour) in image.get_triangles() {
        let whole = t.area();
        assert!(whole >= 0);
        for corner in [t.first, t.second, t.third] {
            assert!(t.contains(corner));
        }
        let again = Tri::new(t.first, t.second, t.third);
        assert_eq!(again.area(), whole);
    }
}

#[test]
fn repeated_mutation_keeps_mesh_consistent() {
    let mut image = GridImage::new_uniform(4, 4);
    let w = image.width();
    let h = image.height();
    for i in 0..10_000u32 {
        let v = image.get_random_inner_vertex();
        image.mutate_structure(&v, None);
        if i % 1000 == 0 {
            assert_mesh_consistent(&image);
        }
    }
    assert_eq!(image.width(), w);
    assert_eq!(image.height(), h);
    assert_eq!(image.get_vertex_positions().len(), w * h);
    assert_mesh_consistent(&image);
}

#[test]
fn mutation_only_moves_the_chosen_vertex() {
    let mut image = GridImage::new_uniform(4, 4);
    let before = image.get_vertex_positions().clone();
    let v = GridVertex::new(2, 1);
    image.mutate_structure(&v, None);
    let after = image.get_vertex_positions();
    for x in 0..4usize {
        for y in 0..4usize {
            if !(x == 2 && y == 1) {
                assert_eq!(after[y * 4 + x], before[y * 4 + x]);
            }
        }
    }
}
