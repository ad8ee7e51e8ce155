use mesh_evolve::colour::Colour;
use mesh_evolve::member::{
    fitness_from_difference, raster_difference, BreedMetadata, FitnessMetadata, GAImageMember,
    ImageMember, Member, TargetImage,
};
use mesh_evolve::point::Point;
use mesh_evolve::rasters::{AxisResolution, Resolution};

fn two_by_two() -> TargetImage {
    TargetImage::new(
        2,
        2,
        vec![
            Colour::new(1, 1, 1),
            Colour::new(2, 2, 2),
            Colour::new(3, 3, 3),
            Colour::new(4, 4, 4),
        ],
    )
}

#[test]
fn target_pixel_lookup_scales_canvas_coordinates() {
    let target = two_by_two();
    // Canvas coordinates below the half span land on the first cell.
    assert_eq!(target.get_target_pixel(0, 0), Colour::new(1, 1, 1));
    assert_eq!(target.get_target_pixel(20000, 20000), Colour::new(1, 1, 1));
    // Above the half span they land on the other cells.
    assert_eq!(target.get_target_pixel(40000, 20000), Colour::new(2, 2, 2));
    assert_eq!(target.get_target_pixel(20000, 40000), Colour::new(3, 3, 3));
    assert_eq!(target.get_target_pixel(40000, 40000), Colour::new(4, 4, 4));
}

#[test]
fn fitness_from_difference_subtracts_from_ceiling() {
    let res = Resolution(AxisResolution::Blocks1, AxisResolution::Blocks1);
    // The ceiling at one block per axis is 3 * 256.
    assert_eq!(fitness_from_difference(0, res), 768);
    assert_eq!(fitness_from_difference(100, res), 668);
    assert_eq!(fitness_from_difference(768, res), 0);
    assert_eq!(fitness_from_difference(10_000, res), 0);
}

#[test]
fn raster_difference_sums_channel_distances() {
    let target = TargetImage::new(1, 1, vec![Colour::new(255, 255, 255)]);
    let res = Resolution(AxisResolution::Blocks1, AxisResolution::Blocks1);
    let pts = vec![(Point::new(0, 0), Colour::new(0, 0, 0))];
    assert_eq!(raster_difference(&pts, &target, res), 765);
    let pts = vec![
        (Point::new(0, 0), Colour::new(255, 255, 255)),
        (Point::new(0, 0), Colour::new(250, 255, 255)),
    ];
    assert_eq!(raster_difference(&pts, &target, res), 5);
}

#[test]
fn member_fitness_matches_its_pieces() {
    let target = two_by_two();
    let image = mesh_evolve::grid::GridImage::new_uniform(3, 3);
    let resolution = Resolution(AxisResolution::Blocks64, AxisResolution::Blocks64);
    let member = GAImageMember::new(image, &target);
    let metadata = FitnessMetadata::new((0, 0), resolution);
    let fitness = member.fitness(&metadata);
    let pts = member.get_image().rasterize_scanline(resolution, (0, 0));
    let diff = raster_difference(&pts, &target, resolution);
    assert_eq!(fitness, fitness_from_difference(diff, resolution));
    assert!(fitness <= 3 * 256 * 64 * 64);
}

#[test]
fn member_breed_rate_zero_preserves_identical_parents() {
    let target = two_by_two();
    let image = mesh_evolve::grid::GridImage::new_uniform(4, 4);
    let left = GAImageMember::new(image.clone(), &target);
    let right = GAImageMember::new(image, &target);
    let metadata = BreedMetadata::new(0);
    let child = GAImageMember::breed(&left, &right, &metadata);
    assert_eq!(
        *child.get_image().get_vertex_positions(),
        *left.get_image().get_vertex_positions()
    );
    assert_eq!(*child.get_image().get_colours(), *left.get_image().get_colours());
}

#[test]
fn image_member_starts_uniform_and_scores() {
    let target = two_by_two();
    let member = ImageMember::new(&target, 4, 4);
    assert_eq!(member.get_image().width(), 4);
    assert_eq!(member.get_image().height(), 4);
    let fitness = member.fitness(&());
    assert!(fitness <= 3 * 256 * 64 * 64);
    let child = ImageMember::breed(&member, &member, &());
    assert_eq!(child.get_image().width(), 4);
}
