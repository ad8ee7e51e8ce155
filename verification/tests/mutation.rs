use mesh_evolve::colour::Colour;
use mesh_evolve::grid::{GridImage, GridVertex};
use mesh_evolve::mutation::{mutate_colour, MUTATION_RATE_SCALE};

#[test]
fn colour_mutation_rate_zero_never_alters() {
    let c = Colour::new(7, 130, 250);
    for _ in 0..200 {
        assert_eq!(mutate_colour(c, 0), c);
    }
}

#[test]
fn colour_mutation_full_rate_stays_in_window() {
    let c = Colour::new(200, 200, 200);
    for _ in 0..200 {
        let m = mutate_colour(c, MUTATION_RATE_SCALE);
        assert!(180 <= m.r && m.r <= 220);
        assert!(180 <= m.g && m.g <= 220);
        assert!(180 <= m.b && m.b <= 220);
    }
}

#[test]
fn colour_mutation_full_rate_clamps_at_ends() {
    let low = Colour::new(5, 0, 10);
    let high = Colour::new(250, 255, 240);
    for _ in 0..200 {
        let m = mutate_colour(low, MUTATION_RATE_SCALE);
        assert!(m.r <= 25);
        assert!(m.g <= 20);
        assert!(m.b <= 30);
        let m = mutate_colour(high, MUTATION_RATE_SCALE);
        assert!(230 <= m.r);
        assert!(235 <= m.g);
        assert!(220 <= m.b);
    }
}

fn chequered(width: usize, height: usize) -> GridImage {
    let mut image = GridImage::new_uniform(width, height);
    for x in 0..width {
        for y in 0..height {
            let k = (y * width + x) as u8;
            image.set_vert_colours(
                &GridVertex::new(x, y),
                (Colour::new(k, 2 * k, 3 * k), Colour::new(255 - k, k, 100)),
            );
        }
    }
    image
}

#[test]
fn mutate_colours_rate_zero_keeps_all() {
    let mut image = chequered(4, 4);
    let before = image.get_colours().clone();
    image.mutate_colours(0);
    assert_eq!(*image.get_colours(), before);
}

#[test]
fn mutate_colours_full_rate_stays_in_windows() {
    let mut image = chequered(4, 4);
    let before = image.get_colours().clone();
    image.mutate_colours(MUTATION_RATE_SCALE);
    let after = image.get_colours();
    for i in 0..before.len() {
        for (b, a) in [(before[i].0, after[i].0), (before[i].1, after[i].1)] {
            assert!(a.r as i32 >= b.r as i32 - 20 && a.r as i32 <= b.r as i32 + 20);
            assert!(a.g as i32 >= b.g as i32 - 20 && a.g as i32 <= b.g as i32 + 20);
            assert!(a.b as i32 >= b.b as i32 - 20 && a.b as i32 <= b.b as i32 + 20);
        }
    }
}

#[test]
fn mutate_radius_zero_keeps_position() {
    let mut image = GridImage::new_uniform(4, 4);
    let before = image.get_vertex_positions().clone();
    let v = GridVertex::new(1, 2);
    for _ in 0..50 {
        image.mutate_structure(&v, Some(0));
    }
    assert_eq!(*image.get_vertex_positions(), before);
}

#[test]
fn mutate_radius_bounds_the_move() {
    let mut image = GridImage::new_uniform(4, 4);
    let v = GridVertex::new(2, 2);
    let radius: u64 = 1000;
    for _ in 0..200 {
        let before = image.get_vertex_positions()[2 * 4 + 2];
        image.mutate_structure(&v, Some(radius as u32));
        let after = image.get_vertex_positions()[2 * 4 + 2];
        let dx = (before.x as i64 - after.x as i64).unsigned_abs();
        let dy = (before.y as i64 - after.y as i64).unsigned_abs();
        assert!(dx * dx + dy * dy <= radius * radius);
    }
}

#[test]
fn breed_identical_parents_rate_zero_is_identity() {
    let a = chequered(4, 4);
    let b = a.clone();
    let child = GridImage::breed(&a, &b, 0);
    assert_eq!(child.width(), a.width());
    assert_eq!(child.height(), a.height());
    assert_eq!(*child.get_vertex_positions(), *a.get_vertex_positions());
    assert_eq!(*child.get_colours(), *a.get_colours());
}

#[test]
fn breed_rate_zero_takes_each_colour_from_a_parent() {
    let a = chequered(4, 4);
    let mut b = chequered(4, 4);
    for x in 0..4usize {
        for y in 0..4usize {
            b.set_vert_colours(
                &GridVertex::new(x, y),
                (Colour::new(1, 2, 3), Colour::new(4, 5, 6)),
            );
        }
    }
    let child = GridImage::breed(&a, &b, 0);
    let ca = a.get_colours();
    let cb = b.get_colours();
    let cc = child.get_colours();
    for i in 0..cc.len() {
        assert!(cc[i].0 == ca[i].0 || cc[i].0 == cb[i].0);
        assert!(cc[i].1 == ca[i].1 || cc[i].1 == cb[i].1);
    }
    // The shape comes wholesale from one parent.
    assert_eq!(*child.get_vertex_positions(), *a.get_vertex_positions());
}

#[test]
fn breed_full_rate_keeps_colours_near_a_parent() {
    let a = chequered(3, 3);
    let b = chequered(3, 3);
    let child = GridImage::breed(&a, &b, MUTATION_RATE_SCALE);
    let ca = a.get_colours();
    let cc = child.get_colours();
    assert_eq!(cc.len(), ca.len());
    for i in 0..cc.len() {
        // Both parents carry the same colours here, so every channel must
        // lie within the jitter window of that shared colour.
        let b0 = ca[i].0;
        let a0 = cc[i].0;
        assert!(a0.r as i32 >= b0.r as i32 - 20 && a0.r as i32 <= b0.r as i32 + 20);
    }
}
