use vstd::prelude::*;

verus! {

use crate::colour::Colour;
use crate::grid::GridImage;
use crate::mutation::{breed_post, MUTATION_RATE_SCALE};
use crate::point::Point;
use crate::rasters::{mesh_scanline_spec, mesh_tri_count, AxisResolution, Resolution};
use crate::tri::abs_int;

/// An evolvable entity: anything with a fitness against per-generation
/// metadata, and a way of breeding two parents into a child.  This is the
/// engine's sole extension point.
///
/// A member type may pin its methods to the two spec functions below by
/// overriding `obeys_member_spec` to true; the engine's contracts then
/// carry the pairing of members with their own fitness, and the parentage
/// of every child, through to its callers.  A type that leaves the
/// default makes no such promise and its methods are unconstrained.
pub trait Member: Sized {
    type FitnessMetadata;

    type BreedMetadata;

    /// Whether this member type promises that its methods follow
    /// `spec_fitness` and `breed_ok`.
    open spec fn obeys_member_spec() -> bool {
        false
    }

    /// The score the member earns against the metadata, for types that
    /// promise one.
    open spec fn spec_fitness(&self, metadata: &Self::FitnessMetadata) -> u64 {
        0
    }

    /// What holds of a child bred from the two parents, for types that
    /// promise anything of breeding.
    open spec fn breed_ok(
        left: &Self,
        right: &Self,
        metadata: &Self::BreedMetadata,
        child: &Self,
    ) -> bool {
        true
    }

    /// The member's score, higher is better; requested once per
    /// generation.
    fn fitness(&self, metadata: &Self::FitnessMetadata) -> (r: u64)
        ensures
            Self::obeys_member_spec() ==> r == self.spec_fitness(metadata),
    ;

    /// Breeds two members into a new member, also applying mutations.
    fn breed(left: &Self, right: &Self, metadata: &Self::BreedMetadata) -> (r: Self)
        ensures
            Self::obeys_member_spec() ==> Self::breed_ok(left, right, metadata, &r),
    ;
}

/// A dense target image the mesh evolves toward: `width * height` pixels
/// in row-major order, looked up through canvas coordinates scaled onto
/// the image's own dimensions.
pub struct TargetImage {
    pub width: u32,
    pub height: u32,
    pub pixels: Vec<Colour>,
}

impl TargetImage {
    pub open spec fn wf(&self) -> bool {
        &&& 1 <= self.width
        &&& 1 <= self.height
        &&& self.pixels@.len() == self.width * self.height
    }

    /// The pixel under canvas coordinates `(x, y)`, each a fraction of the
    /// 65536-unit canvas span.
    pub open spec fn spec_pixel(&self, x: int, y: int) -> Colour {
        let tx = x * self.width / 65536;
        let ty = y * self.height / 65536;
        self.pixels@[ty * self.width + tx]
    }

    pub fn new(width: u32, height: u32, pixels: Vec<Colour>) -> (r: TargetImage)
        requires
            1 <= width,
            1 <= height,
            pixels@.len() == width * height,
        ensures
            r.wf(),
            r.width == width,
            r.height == height,
            r.pixels == pixels,
    {
        TargetImage { width, height, pixels }
    }

    /// The target-pixel oracle: a pure lookup from canvas coordinates to
    /// the colour of the image pixel they fall on.
    pub fn get_target_pixel(&self, x: u16, y: u16) -> (r: Colour)
        requires
            self.wf(),
        ensures
            r == self.spec_pixel(x as int, y as int),
    {
        let n = self.pixels.len();
        proof {
            assert((x as int) * (self.width as int) <= 65535 * 0xFFFF_FFFF
                && (y as int) * (self.height as int) <= 65535 * 0xFFFF_FFFF) by (nonlinear_arith)
                requires
                    0 <= x <= 65535,
                    0 <= y <= 65535,
                    0 <= self.width <= 0xFFFF_FFFF,
                    0 <= self.height <= 0xFFFF_FFFF,
            ;
        }
        let tx = (x as u64) * (self.width as u64) / 65536;
        let ty = (y as u64) * (self.height as u64) / 65536;
        proof {
            lemma_scale_index(x as int, self.width as int);
            lemma_scale_index(y as int, self.height as int);
            crate::grid::lemma_grid_index(self.width as int, self.height as int, tx as int, ty as int);
        }
        let idx = ty * (self.width as u64) + tx;
        self.pixels[idx as usize]
    }
}

/// A canvas coordinate scaled onto an axis of the target image lands on
/// it.
proof fn lemma_scale_index(x: int, w: int)
    by (nonlinear_arith)
    requires
        0 <= x < 65536,
        1 <= w,
    ensures
        0 <= x * w / 65536 < w,
{
}

/// The per-evaluation metadata of mesh members: where and how finely to
/// rasterize for the comparison against the target.
pub struct FitnessMetadata {
    /// The sub-pixel offset to rasterize at.
    pub offset: (u16, u16),
    /// The resolution of the fitness comparison.
    pub resolution: Resolution,
}

impl FitnessMetadata {
    pub fn new(offset: (u16, u16), resolution: Resolution) -> (r: Self)
        ensures
            r.offset == offset,
            r.resolution == resolution,
    {
        FitnessMetadata { offset, resolution }
    }
}

/// The per-breeding metadata of mesh members: the probability of
/// mutation, as a fraction of `MUTATION_RATE_SCALE`.
pub struct BreedMetadata {
    pub mutation_rate: u32,
}

impl BreedMetadata {
    pub fn new(mutation_rate: u32) -> (r: Self)
        requires
            mutation_rate <= MUTATION_RATE_SCALE,
        ensures
            r.mutation_rate == mutation_rate,
    {
        BreedMetadata { mutation_rate }
    }
}

/// The summed channel distance between two colours; at most 765.
pub open spec fn colour_diff(c: Colour, t: Colour) -> int {
    abs_int(c.r - t.r) + abs_int(c.g - t.g) + abs_int(c.b - t.b)
}

/// The summed channel distance between a stream of rasterized pixels and
/// the target pixels under them, with pixel coordinates scaled back to
/// canvas units through the block sizes.
pub open spec fn raster_diff(
    pts: Seq<(Point, Colour)>,
    target: TargetImage,
    sx: int,
    sy: int,
) -> int
    decreases pts.len(),
{
    if pts.len() == 0 {
        0
    } else {
        raster_diff(pts.drop_last(), target, sx, sy) + colour_diff(
            pts.last().1,
            target.spec_pixel(pts.last().0.x * sx, pts.last().0.y * sy),
        )
    }
}

/// The highest fitness a member can score at a resolution: the fixed
/// ceiling the summed difference is subtracted from.
pub open spec fn max_fitness(resolution: Resolution) -> int {
    3 * 256 * resolution.0.spec_pixel_count() * resolution.1.spec_pixel_count()
}

/// The fitness a summed difference earns: the ceiling minus the
/// difference, floored at zero.
pub open spec fn fitness_value(diff: int, resolution: Resolution) -> int {
    if diff <= max_fitness(resolution) {
        max_fitness(resolution) - diff
    } else {
        0
    }
}

fn channel_diff(a: u8, b: u8) -> (r: u8)
    ensures
        r == abs_int(a - b),
{
    if a >= b {
        a - b
    } else {
        b - a
    }
}

/// Sums the channel distance between rasterized pixels and the target
/// pixels under them, exactly as `raster_diff` states it.
pub fn raster_difference(
    pts: &Vec<(Point, Colour)>,
    target: &TargetImage,
    resolution: Resolution,
) -> (r: u128)
    requires
        target.wf(),
        forall|i: int|
            0 <= i < pts@.len() ==> (#[trigger] pts@[i]).0.x * resolution.0.spec_pixel_size()
                < 65536 && pts@[i].0.y * resolution.1.spec_pixel_size() < 65536,
    ensures
        r == raster_diff(
            pts@,
            *target,
            resolution.0.spec_pixel_size(),
            resolution.1.spec_pixel_size(),
        ),
        r <= 765 * pts@.len(),
{
    let sx = resolution.0.get_pixel_size();
    let sy = resolution.1.get_pixel_size();
    let mut diff: u128 = 0;
    let mut i: usize = 0;
    while i < pts.len()
        invariant
            target.wf(),
            sx == resolution.0.spec_pixel_size(),
            sy == resolution.1.spec_pixel_size(),
            i <= pts@.len(),
            forall|j: int|
                0 <= j < pts@.len() ==> (#[trigger] pts@[j]).0.x * resolution.0.spec_pixel_size()
                    < 65536 && pts@[j].0.y * resolution.1.spec_pixel_size() < 65536,
            diff == raster_diff(pts@.take(i as int), *target, sx as int, sy as int),
            diff <= 765 * i,
        decreases pts@.len() - i,
    {
        let pc = pts[i];
        let cx = (pc.0.x as u32 * sx) as u16;
        let cy = (pc.0.y as u32 * sy) as u16;
        let tcol = target.get_target_pixel(cx, cy);
        let d = channel_diff(pc.1.r, tcol.r) as u32 + channel_diff(pc.1.g, tcol.g) as u32
            + channel_diff(pc.1.b, tcol.b) as u32;
        proof {
            assert(pts@.take(i as int + 1).drop_last() =~= pts@.take(i as int));
            assert(pts@.take(i as int + 1).last() == pts@[i as int]);
        }
        diff = diff + d as u128;
        i = i + 1;
    }
    proof {
        assert(pts@.take(pts@.len() as int) =~= pts@);
    }
    diff
}

/// Turns a summed difference into a fitness: the resolution's ceiling
/// minus the difference, floored at zero.
pub fn fitness_from_difference(diff: u128, resolution: Resolution) -> (r: u64)
    ensures
        r == fitness_value(diff as int, resolution),
{
    proof {
        crate::rasters::lemma_axis_resolution(resolution.0);
        crate::rasters::lemma_axis_resolution(resolution.1);
    }
    let cx = resolution.0.get_pixel_count() as u64;
    let cy = resolution.1.get_pixel_count() as u64;
    let partial = 768u64 * cx;
    proof {
        assert(partial * cy <= 768 * 65536 * 65536) by (nonlinear_arith)
            requires
                partial <= 768 * 65536,
                cy <= 65536,
        ;
    }
    let ceiling = partial * cy;
    if diff <= ceiling as u128 {
        ceiling - diff as u64
    } else {
        0
    }
}

/// A mesh paired with the target-pixel oracle it is scored against.
#[derive(Clone)]
pub struct GAImageMember<'a> {
    /// The image this member encapsulates.
    pub image: GridImage,
    /// The oracle giving the colour of the target at canvas coordinates.
    pub target: &'a TargetImage,
}

impl<'a> GAImageMember<'a> {
    pub fn new(image: GridImage, target: &'a TargetImage) -> (r: Self)
        ensures
            r.image == image,
            r.target == target,
    {
        GAImageMember { image, target }
    }

    pub fn get_image(&self) -> (r: &GridImage)
        ensures
            r == &self.image,
    {
        &self.image
    }
}

/// Checks at run time that a mesh is structurally sound, so that the
/// trait methods, which may not turn callers away, can refuse malformed
/// meshes gracefully instead.
fn check_mesh(image: &GridImage) -> (r: bool)
    ensures
        r == image.wf(),
{
    let np = image.positions.len();
    let nc = image.colours.len();
    if image.width < 2 || image.height < 2 {
        return false;
    }
    if let Some(n) = image.width.checked_mul(image.height) {
        np == n && nc == n
    } else {
        false
    }
}

/// The run-time counterpart of the target image's well-formedness, for
/// the same graceful refusal.
fn check_target(target: &TargetImage) -> (r: bool)
    ensures
        r == target.wf(),
{
    let n = target.pixels.len();
    if target.width < 1 || target.height < 1 {
        return false;
    }
    proof {
        assert((target.width as int) * (target.height as int) < 0x1_0000_0000_0000_0000)
            by (nonlinear_arith)
            requires
                0 <= target.width <= 0xFFFF_FFFF,
                0 <= target.height <= 0xFFFF_FFFF,
        ;
    }
    let product = (target.width as u64) * (target.height as u64);
    n as u64 == product
}

/// The score a mesh earns against a target at a resolution and offset:
/// the resolution's fitness ceiling minus the summed channel difference
/// over exactly the pixels the scanline fill emits, floored at zero.
pub open spec fn scanline_fitness_value(
    img: GridImage,
    target: TargetImage,
    resolution: Resolution,
    ox: int,
    oy: int,
) -> int {
    let sx = resolution.0.spec_pixel_size();
    let sy = resolution.1.spec_pixel_size();
    fitness_value(
        raster_diff(mesh_scanline_spec(img, mesh_tri_count(img), sx, sy, ox, oy), target, sx, sy),
        resolution,
    )
}

/// Rasterizes a well-formed mesh with the scanline fill and scores it
/// against the target: the fitness ceiling of the resolution minus the
/// summed channel difference over the emitted pixels, floored at zero.
fn scanline_fitness(
    image: &GridImage,
    target: &TargetImage,
    resolution: Resolution,
    offset: (u16, u16),
) -> (r: u64)
    requires
        image.wf(),
        target.wf(),
        offset.0 < resolution.0.spec_pixel_size(),
        offset.1 < resolution.1.spec_pixel_size(),
    ensures
        r == scanline_fitness_value(
            *image,
            *target,
            resolution,
            offset.0 as int,
            offset.1 as int,
        ),
        r <= max_fitness(resolution),
{
    let pts = image.rasterize_scanline(resolution, offset);
    proof {
        crate::rasters::lemma_axis_resolution(resolution.0);
        crate::rasters::lemma_axis_resolution(resolution.1);
        assert forall|i: int|
            0 <= i < pts@.len() implies (#[trigger] pts@[i]).0.x
                * resolution.0.spec_pixel_size() < 65536 && pts@[i].0.y
                * resolution.1.spec_pixel_size() < 65536 by {
            lemma_pixel_scale(
                pts@[i].0.x as int,
                resolution.0.spec_pixel_size(),
                resolution.0.spec_pixel_count(),
            );
            lemma_pixel_scale(
                pts@[i].0.y as int,
                resolution.1.spec_pixel_size(),
                resolution.1.spec_pixel_count(),
            );
        }
    }
    let diff = raster_difference(&pts, target, resolution);
    fitness_from_difference(diff, resolution)
}

/// A pixel within the block count scales back to within the canvas.
proof fn lemma_pixel_scale(px: int, s: int, cnt: int)
    by (nonlinear_arith)
    requires
        0 <= px < cnt,
        1 <= s,
        s * cnt == 65536,
    ensures
        px * s < 65536,
{
}

/// Reduces an arbitrary offset to the sub-pixel sampling phase the
/// scanline fill asks for.
fn mask_offset(offset: u16, size: u32) -> (r: u16)
    requires
        1 <= size <= 65536,
    ensures
        r == offset as int % size as int,
        r < size,
{
    (offset as u32 % size) as u16
}

impl<'a> Member for GAImageMember<'a> {
    type FitnessMetadata = FitnessMetadata;

    type BreedMetadata = BreedMetadata;

    open spec fn obeys_member_spec() -> bool {
        true
    }

    /// The score of a well-formed mesh against a well-formed target:
    /// exactly the scanline fitness at the metadata's resolution, the
    /// offset folded into the sub-pixel sampling phase; zero otherwise.
    open spec fn spec_fitness(&self, metadata: &FitnessMetadata) -> u64 {
        if self.image.wf() && self.target.wf() {
            scanline_fitness_value(
                self.image,
                *self.target,
                metadata.resolution,
                metadata.offset.0 as int % metadata.resolution.0.spec_pixel_size(),
                metadata.offset.1 as int % metadata.resolution.1.spec_pixel_size(),
            ) as u64
        } else {
            0
        }
    }

    /// A child of well-formed, equally-sized parents bred within the rate
    /// scale satisfies the mesh breeding contract; every child keeps the
    /// left parent's target.
    open spec fn breed_ok(
        left: &Self,
        right: &Self,
        metadata: &BreedMetadata,
        child: &Self,
    ) -> bool {
        &&& (left.image.wf() && right.image.wf() && left.image.spec_width()
            == right.image.spec_width() && left.image.spec_height() == right.image.spec_height()
            && metadata.mutation_rate <= MUTATION_RATE_SCALE) ==> breed_post(
            left.image,
            right.image,
            metadata.mutation_rate,
            child.image,
        )
        &&& child.target == left.target
    }

    /// Scores the mesh against the target at the metadata's resolution,
    /// the offset folded into the sub-pixel sampling phase.  A malformed
    /// mesh or target scores zero.
    fn fitness(&self, metadata: &Self::FitnessMetadata) -> (r: u64)
        ensures
            r <= max_fitness(metadata.resolution),
    {
        proof {
            crate::rasters::lemma_axis_resolution(metadata.resolution.0);
            crate::rasters::lemma_axis_resolution(metadata.resolution.1);
        }
        if !check_mesh(&self.image) || !check_target(self.target) {
            return 0;
        }
        let sizes = metadata.resolution.get_pixel_size();
        let offset = (
            mask_offset(metadata.offset.0, sizes.0),
            mask_offset(metadata.offset.1, sizes.1),
        );
        scanline_fitness(&self.image, self.target, metadata.resolution, offset)
    }

    /// Breeds the two meshes at the metadata's mutation rate; the child
    /// keeps the left parent's target.  Parents with malformed or
    /// mismatched meshes fall back to the left parent's mesh unchanged.
    fn breed(left: &Self, right: &Self, metadata: &Self::BreedMetadata) -> (r: Self) {
        let rate = if metadata.mutation_rate <= MUTATION_RATE_SCALE {
            metadata.mutation_rate
        } else {
            MUTATION_RATE_SCALE
        };
        if check_mesh(&left.image) && check_mesh(&right.image) && left.image.width()
            == right.image.width() && left.image.height() == right.image.height() {
            GAImageMember {
                image: GridImage::breed(&left.image, &right.image, rate),
                target: left.target,
            }
        } else {
            GAImageMember { image: left.image.clone(), target: left.target }
        }
    }
}

/// The mutation rate the fixed-rate member breeds at: five hundredths of
/// the scale, rounded up.
pub const DEFAULT_MUTATION_RATE: u32 = 3277;

/// The resolution the fixed-rate member scores at.
pub open spec fn image_member_resolution() -> Resolution {
    Resolution(AxisResolution::Blocks64, AxisResolution::Blocks64)
}

/// A mesh member with a fixed evaluation resolution and mutation rate,
/// scored against a target image.
#[derive(Clone)]
pub struct ImageMember<'a> {
    pub image: GridImage,
    pub target: &'a TargetImage,
}

impl<'a> ImageMember<'a> {
    /// Starts from the uniform mesh of the given dimensions.
    pub fn new(target: &'a TargetImage, width: usize, height: usize) -> (r: Self)
        requires
            2 <= width,
            2 <= height,
            width * height <= usize::MAX,
        ensures
            r.image.wf(),
            r.image.spec_width() == width,
            r.image.spec_height() == height,
            r.target == target,
    {
        ImageMember { image: GridImage::new_uniform(width, height), target }
    }

    pub fn get_image(&self) -> (r: &GridImage)
        ensures
            r == &self.image,
    {
        &self.image
    }
}

impl<'a> Member for ImageMember<'a> {
    type FitnessMetadata = ();

    type BreedMetadata = ();

    open spec fn obeys_member_spec() -> bool {
        true
    }

    /// The score of a well-formed mesh against a well-formed target:
    /// exactly the scanline fitness at the fixed resolution with no
    /// offset; zero otherwise.
    open spec fn spec_fitness(&self, metadata: &()) -> u64 {
        if self.image.wf() && self.target.wf() {
            scanline_fitness_value(
                self.image,
                *self.target,
                image_member_resolution(),
                0,
                0,
            ) as u64
        } else {
            0
        }
    }

    /// A child of well-formed, equally-sized parents satisfies the mesh
    /// breeding contract at the fixed rate; every child keeps the left
    /// parent's target.
    open spec fn breed_ok(left: &Self, right: &Self, metadata: &(), child: &Self) -> bool {
        &&& (left.image.wf() && right.image.wf() && left.image.spec_width()
            == right.image.spec_width() && left.image.spec_height()
            == right.image.spec_height()) ==> breed_post(
            left.image,
            right.image,
            DEFAULT_MUTATION_RATE,
            child.image,
        )
        &&& child.target == left.target
    }

    /// Scores the mesh at the fixed resolution with no offset.  A
    /// malformed mesh or target scores zero.
    fn fitness(&self, metadata: &Self::FitnessMetadata) -> (r: u64)
        ensures
            r <= max_fitness(image_member_resolution()),
    {
        if !check_mesh(&self.image) || !check_target(self.target) {
            return 0;
        }
        let resolution = Resolution(AxisResolution::Blocks64, AxisResolution::Blocks64);
        scanline_fitness(&self.image, self.target, resolution, (0, 0))
    }

    /// Breeds at the fixed mutation rate; the child keeps the left
    /// parent's target.  Parents with malformed or mismatched meshes fall
    /// back to the left parent's mesh unchanged.
    fn breed(left: &Self, right: &Self, metadata: &Self::BreedMetadata) -> (r: Self) {
        if check_mesh(&left.image) && check_mesh(&right.image) && left.image.width()
            == right.image.width() && left.image.height() == right.image.height() {
            ImageMember {
                image: GridImage::breed(&left.image, &right.image, DEFAULT_MUTATION_RATE),
                target: left.target,
            }
        } else {
            ImageMember { image: left.image.clone(), target: left.target }
        }
    }
}

} // verus!
