use mesh_evolve::grid::{GridImage, GridNeighbourEdgeSet, GridVertex};

fn pairs_of(set: &GridNeighbourEdgeSet) -> &Vec<(GridVertex, GridVertex)> {
    match set {
        GridNeighbourEdgeSet::Centre(e) => e,
        GridNeighbourEdgeSet::TopLeftCorner(e) => e,
        GridNeighbourEdgeSet::TopRightCorner(e) => e,
        GridNeighbourEdgeSet::BottomLeftCorner(e) => e,
        GridNeighbourEdgeSet::BottomRightCorner(e) => e,
        GridNeighbourEdgeSet::LeftEdge(e) => e,
        GridNeighbourEdgeSet::TopEdge(e) => e,
        GridNeighbourEdgeSet::RightEdge(e) => e,
        GridNeighbourEdgeSet::BottomEdge(e) => e,
    }
}

fn distinct_neighbours(set: &GridNeighbourEdgeSet) -> Vec<GridVertex> {
    let mut seen: Vec<GridVertex> = Vec::new();
    for (a, b) in pairs_of(set) {
        if !seen.contains(a) {
            seen.push(*a);
        }
        if !seen.contains(b) {
            seen.push(*b);
        }
    }
    seen
}

fn neighbour_count(image: &GridImage, x: usize, y: usize) -> (usize, usize) {
    let set = image.neighbour_edge_set(&GridVertex::new(x, y));
    (pairs_of(&set).len(), distinct_neighbours(&set).len())
}

#[test]
fn neighbour_sizes_by_class() {
    let image = GridImage::new_uniform(4, 4);
    // Corners: three edges, three distinct neighbours.
    assert_eq!(neighbour_count(&image, 0, 0), (3, 3));
    assert_eq!(neighbour_count(&image, 3, 0), (3, 3));
    assert_eq!(neighbour_count(&image, 0, 3), (3, 3));
    assert_eq!(neighbour_count(&image, 3, 3), (3, 3));
    // Non-corner border vertices: five.
    assert_eq!(neighbour_count(&image, 0, 1), (5, 5));
    assert_eq!(neighbour_count(&image, 1, 0), (5, 5));
    assert_eq!(neighbour_count(&image, 3, 2), (5, 5));
    assert_eq!(neighbour_count(&image, 2, 3), (5, 5));
    // Interior vertices: eight.
    assert_eq!(neighbour_count(&image, 1, 1), (8, 8));
    assert_eq!(neighbour_count(&image, 2, 2), (8, 8));
}

#[test]
fn neighbour_sizes_no_duplicates_everywhere() {
    for (w, h) in [(2usize, 2usize), (2, 5), (5, 2), (3, 3), (6, 4)] {
        let image = GridImage::new_uniform(w, h);
        for x in 0..w {
            for y in 0..h {
                let (edges, distinct) = neighbour_count(&image, x, y);
                // As many distinct neighbours as edges: no duplicate.
                assert_eq!(edges, distinct);
                let corner = (x == 0 || x == w - 1) && (y == 0 || y == h - 1);
                let border = x == 0 || x == w - 1 || y == 0 || y == h - 1;
                let expected = if corner {
                    3
                } else if border {
                    5
                } else {
                    8
                };
                assert_eq!(distinct, expected);
            }
        }
    }
}

#[test]
fn neighbours_stay_on_lattice() {
    let image = GridImage::new_uniform(3, 3);
    for x in 0..3usize {
        for y in 0..3usize {
            let set = image.neighbour_edge_set(&GridVertex::new(x, y));
            for (a, b) in pairs_of(&set) {
                assert!(a.horizontal < 3 && a.vertical < 3);
                assert!(b.horizontal < 3 && b.vertical < 3);
            }
        }
    }
}

#[test]
fn uniform_mesh_spans_canvas() {
    let image = GridImage::new_uniform(3, 3);
    let positions = image.get_vertex_positions();
    assert_eq!(positions.len(), 9);
    // Corner vertices sit on the canvas corners of the regular sub-grid.
    assert_eq!(positions[0].x, 0);
    assert_eq!(positions[0].y, 0);
    assert_eq!(positions[8].x, 65534);
    assert_eq!(positions[8].y, 65534);
    // The middle vertex sits at the centre.
    assert_eq!(positions[4].x, 32767);
    assert_eq!(positions[4].y, 32767);
}

#[test]
fn random_inner_vertex_is_interior() {
    let image = GridImage::new_uniform(5, 7);
    for _ in 0..200 {
        let v = image.get_random_inner_vertex();
        assert!(1 <= v.horizontal && v.horizontal <= 3);
        assert!(1 <= v.vertical && v.vertical <= 5);
    }
}
