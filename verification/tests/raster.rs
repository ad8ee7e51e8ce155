use mesh_evolve::colour::Colour;
use mesh_evolve::grid::{GridImage, GridVertex};
use mesh_evolve::point::Point;
use mesh_evolve::rasters::{AxisResolution, Resolution};
use std::collections::HashMap;
use std::collections::HashSet;

#[test]
fn axis_resolution_size_count_product() {
    let all = [
        AxisResolution::Blocks1,
        AxisResolution::Blocks2,
        AxisResolution::Blocks4,
        AxisResolution::Blocks8,
        AxisResolution::Blocks16,
        AxisResolution::Blocks32,
        AxisResolution::Blocks64,
        AxisResolution::Blocks128,
        AxisResolution::Blocks256,
        AxisResolution::Blocks512,
        AxisResolution::Blocks1024,
        AxisResolution::Blocks2048,
        AxisResolution::Blocks4096,
        AxisResolution::Blocks8192,
        AxisResolution::Blocks16384,
        AxisResolution::Blocks32768,
        AxisResolution::Blocks65536,
    ];
    for a in all {
        assert_eq!(a.get_pixel_size() as u64 * a.get_pixel_count() as u64, 65536);
    }
    assert_eq!(AxisResolution::Blocks64.get_pixel_size(), 1024);
    assert_eq!(AxisResolution::Blocks64.get_pixel_count(), 64);
    let r = Resolution(AxisResolution::Blocks256, AxisResolution::Blocks1024);
    assert_eq!(r.get_pixel_size(), (256, 64));
    assert_eq!(r.get_pixel_count(), (256, 1024));
}

#[test]
fn triangle_enumeration_counts_and_colours() {
    let mut image = GridImage::new_uniform(3, 3);
    for x in 0..3usize {
        for y in 0..3usize {
            let k = (y * 3 + x) as u8;
            image.set_vert_colours(
                &GridVertex::new(x, y),
                (Colour::new(k, 0, 0), Colour::new(0, k, 0)),
            );
        }
    }
    let tris = image.get_triangles();
    // Two triangles for each of the four cells.
    assert_eq!(tris.len(), 8);
    // The first cell's triangles carry the top-left vertex's colours.
    assert_eq!(tris[0].1, Colour::new(0, 0, 0));
    assert_eq!(tris[1].1, Colour::new(0, 0, 0));
    // The upper triangle of a cell spans its top-left, top-right and
    // bottom-right corners.
    let positions = image.get_vertex_positions();
    assert_eq!(tris[0].0.first, positions[0]);
    assert_eq!(tris[0].0.second, positions[1]);
    assert_eq!(tris[0].0.third, positions[4]);
    assert_eq!(tris[1].0.first, positions[0]);
    assert_eq!(tris[1].0.second, positions[4]);
    assert_eq!(tris[1].0.third, positions[3]);
}

#[test]
fn scanline_pixels_stay_in_resolution() {
    let image = GridImage::new_uniform(4, 4);
    let res = Resolution(AxisResolution::Blocks64, AxisResolution::Blocks32);
    let pts = image.rasterize_scanline(res, (0, 0));
    assert!(!pts.is_empty());
    for (p, _c) in &pts {
        assert!(p.x < 64);
        assert!(p.y < 32);
    }
}

#[test]
fn scanline_offset_shifts_sampling() {
    let image = GridImage::new_uniform(3, 3);
    let res = Resolution(AxisResolution::Blocks256, AxisResolution::Blocks256);
    let a = image.rasterize_scanline(res, (0, 0));
    let b = image.rasterize_scanline(res, (100, 100));
    assert!(!a.is_empty());
    assert!(!b.is_empty());
    for (p, _c) in &b {
        assert!(p.x < 256 && p.y < 256);
    }
}

fn colour_key(c: &Colour) -> (u8, u8, u8) {
    (c.r, c.g, c.b)
}

/// Whether the pixel lies on a side of the scaled-down image of any mesh
/// triangle: collinear with the side's two scaled ends and within their
/// box.  Agreement between the two rasterizers is only owed away from
/// these, because the box fill suppresses shared sides.
fn on_any_scaled_edge(image: &GridImage, shift: u32, p: Point) -> bool {
    let scale = 1u32 << shift;
    for (t, _c) in image.get_triangles() {
        let corners = [
            (t.first.x as i64 / scale as i64, t.first.y as i64 / scale as i64),
            (t.second.x as i64 / scale as i64, t.second.y as i64 / scale as i64),
            (t.third.x as i64 / scale as i64, t.third.y as i64 / scale as i64),
        ];
        for (a, b) in [
            (corners[0], corners[1]),
            (corners[1], corners[2]),
            (corners[0], corners[2]),
        ] {
            let px = p.x as i64;
            let py = p.y as i64;
            let cross = (b.0 - a.0) * (py - a.1) - (px - a.0) * (b.1 - a.1);
            let in_box = a.0.min(b.0) <= px
                && px <= a.0.max(b.0)
                && a.1.min(b.1) <= py
                && py <= a.1.max(b.1);
            if cross == 0 && in_box {
                return true;
            }
        }
    }
    false
}

#[test]
fn box_and_scanline_agree_away_from_shared_edges() {
    let mut image = GridImage::new_uniform(3, 3);
    for x in 0..3usize {
        for y in 0..3usize {
            let k = (y * 3 + x) as u8;
            image.set_vert_colours(
                &GridVertex::new(x, y),
                (Colour::new(10 + k, 0, 0), Colour::new(0, 10 + k, 0)),
            );
        }
    }
    let boxed = image.rasterize_box((8, 8));
    let scanned = image.rasterize_scanline(
        Resolution(AxisResolution::Blocks256, AxisResolution::Blocks256),
        (0, 0),
    );
    assert!(!boxed.is_empty());
    assert!(!scanned.is_empty());

    let mut box_map: HashMap<(u16, u16), HashSet<(u8, u8, u8)>> = HashMap::new();
    for (p, c) in &boxed {
        box_map.entry((p.x, p.y)).or_default().insert(colour_key(c));
    }
    let mut scan_map: HashMap<(u16, u16), HashSet<(u8, u8, u8)>> = HashMap::new();
    for (p, c) in &scanned {
        scan_map.entry((p.x, p.y)).or_default().insert(colour_key(c));
    }

    let mut compared = 0u32;
    for (pix, bset) in &box_map {
        if let Some(sset) = scan_map.get(pix) {
            if bset.len() == 1 && sset.len() == 1 {
                let p = Point::new(pix.0, pix.1);
                if !on_any_scaled_edge(&image, 8, p) {
                    assert_eq!(bset, sset, "disagreement at pixel {:?}", pix);
                    compared += 1;
                }
            }
        }
    }
    assert!(compared > 1000, "only {} pixels compared", compared);
}
