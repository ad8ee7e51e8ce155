use vstd::prelude::*;

verus! {

use crate::colour::Colour;
use crate::grid::{GridImage, GridVertex};
use crate::point::Point;
use crate::tri::{box_emits, scan_in_bounds, scanline_points, scanline_spec, Tri};

/// One of the 17 power-of-two pixel-block granularities of an axis: from a
/// single block spanning the whole canvas down to one block per canvas
/// unit.
#[derive(Copy, Clone, PartialEq, Eq, Structural, Debug)]
pub enum AxisResolution {
    Blocks1,
    Blocks2,
    Blocks4,
    Blocks8,
    Blocks16,
    Blocks32,
    Blocks64,
    Blocks128,
    Blocks256,
    Blocks512,
    Blocks1024,
    Blocks2048,
    Blocks4096,
    Blocks8192,
    Blocks16384,
    Blocks32768,
    Blocks65536,
}

impl AxisResolution {
    /// The canvas units each pixel block spans on this axis.
    pub open spec fn spec_pixel_size(&self) -> int {
        match self {
            AxisResolution::Blocks1 => 65536,
            AxisResolution::Blocks2 => 32768,
            AxisResolution::Blocks4 => 16384,
            AxisResolution::Blocks8 => 8192,
            AxisResolution::Blocks16 => 4096,
            AxisResolution::Blocks32 => 2048,
            AxisResolution::Blocks64 => 1024,
            AxisResolution::Blocks128 => 512,
            AxisResolution::Blocks256 => 256,
            AxisResolution::Blocks512 => 128,
            AxisResolution::Blocks1024 => 64,
            AxisResolution::Blocks2048 => 32,
            AxisResolution::Blocks4096 => 16,
            AxisResolution::Blocks8192 => 8,
            AxisResolution::Blocks16384 => 4,
            AxisResolution::Blocks32768 => 2,
            AxisResolution::Blocks65536 => 1,
        }
    }

    /// The number of pixel blocks on this axis.
    pub open spec fn spec_pixel_count(&self) -> int {
        match self {
            AxisResolution::Blocks1 => 1,
            AxisResolution::Blocks2 => 2,
            AxisResolution::Blocks4 => 4,
            AxisResolution::Blocks8 => 8,
            AxisResolution::Blocks16 => 16,
            AxisResolution::Blocks32 => 32,
            AxisResolution::Blocks64 => 64,
            AxisResolution::Blocks128 => 128,
            AxisResolution::Blocks256 => 256,
            AxisResolution::Blocks512 => 512,
            AxisResolution::Blocks1024 => 1024,
            AxisResolution::Blocks2048 => 2048,
            AxisResolution::Blocks4096 => 4096,
            AxisResolution::Blocks8192 => 8192,
            AxisResolution::Blocks16384 => 16384,
            AxisResolution::Blocks32768 => 32768,
            AxisResolution::Blocks65536 => 65536,
        }
    }

    pub fn get_pixel_size(self: &Self) -> (r: u32)
        ensures
            r == self.spec_pixel_size(),
    {
        match self {
            AxisResolution::Blocks1 => 65536,
            AxisResolution::Blocks2 => 32768,
            AxisResolution::Blocks4 => 16384,
            AxisResolution::Blocks8 => 8192,
            AxisResolution::Blocks16 => 4096,
            AxisResolution::Blocks32 => 2048,
            AxisResolution::Blocks64 => 1024,
            AxisResolution::Blocks128 => 512,
            AxisResolution::Blocks256 => 256,
            AxisResolution::Blocks512 => 128,
            AxisResolution::Blocks1024 => 64,
            AxisResolution::Blocks2048 => 32,
            AxisResolution::Blocks4096 => 16,
            AxisResolution::Blocks8192 => 8,
            AxisResolution::Blocks16384 => 4,
            AxisResolution::Blocks32768 => 2,
            AxisResolution::Blocks65536 => 1,
        }
    }

    pub fn get_pixel_count(self: &Self) -> (r: u32)
        ensures
            r == self.spec_pixel_count(),
    {
        match self {
            AxisResolution::Blocks1 => 1,
            AxisResolution::Blocks2 => 2,
            AxisResolution::Blocks4 => 4,
            AxisResolution::Blocks8 => 8,
            AxisResolution::Blocks16 => 16,
            AxisResolution::Blocks32 => 32,
            AxisResolution::Blocks64 => 64,
            AxisResolution::Blocks128 => 128,
            AxisResolution::Blocks256 => 256,
            AxisResolution::Blocks512 => 512,
            AxisResolution::Blocks1024 => 1024,
            AxisResolution::Blocks2048 => 2048,
            AxisResolution::Blocks4096 => 4096,
            AxisResolution::Blocks8192 => 8192,
            AxisResolution::Blocks16384 => 16384,
            AxisResolution::Blocks32768 => 32768,
            AxisResolution::Blocks65536 => 65536,
        }
    }
}

/// Block size and block count of an axis multiply back to the canvas span.
pub proof fn lemma_axis_resolution(a: AxisResolution)
    ensures
        a.spec_pixel_size() * a.spec_pixel_count() == 65536,
        1 <= a.spec_pixel_size() <= 65536,
        1 <= a.spec_pixel_count() <= 65536,
{
}

/// A pair of axis resolutions: horizontal, then vertical.
#[derive(Copy, Clone, PartialEq, Eq, Structural, Debug)]
pub struct Resolution(pub AxisResolution, pub AxisResolution);

impl Resolution {
    /// The size of the pixel blocks on each axis.
    pub fn get_pixel_size(self: Self) -> (r: (u32, u32))
        ensures
            r.0 == self.0.spec_pixel_size(),
            r.1 == self.1.spec_pixel_size(),
    {
        (self.0.get_pixel_size(), self.1.get_pixel_size())
    }

    /// The number of pixel blocks on each axis.
    pub fn get_pixel_count(self: Self) -> (r: (u32, u32))
        ensures
            r.0 == self.0.spec_pixel_count(),
            r.1 == self.1.spec_pixel_count(),
    {
        (self.0.get_pixel_count(), self.1.get_pixel_count())
    }
}

/// The lattice vertex at column `x`, row `y`.
pub open spec fn gv(x: int, y: int) -> GridVertex {
    GridVertex { horizontal: x as usize, vertical: y as usize }
}

/// The triangle over the top and right of lattice cell `(x, y)`.
pub open spec fn upper_tri(img: GridImage, x: int, y: int) -> Tri {
    Tri {
        first: img.spec_pos(gv(x, y)),
        second: img.spec_pos(gv(x + 1, y)),
        third: img.spec_pos(gv(x + 1, y + 1)),
    }
}

/// The triangle over the left and bottom of lattice cell `(x, y)`.
pub open spec fn lower_tri(img: GridImage, x: int, y: int) -> Tri {
    Tri {
        first: img.spec_pos(gv(x, y)),
        second: img.spec_pos(gv(x + 1, y + 1)),
        third: img.spec_pos(gv(x, y + 1)),
    }
}

/// How many triangles the mesh rasterizes: two per cell, none for the last
/// row and column.
pub open spec fn mesh_tri_count(img: GridImage) -> int {
    2 * ((img.spec_width() - 1) * (img.spec_height() - 1))
}

/// The `k`-th triangle of the mesh with its colour, cells walked column by
/// column, the upper triangle of each cell before the lower.
pub open spec fn mesh_tri(img: GridImage, k: int) -> (Tri, Colour) {
    let c = k / 2;
    let x = c / (img.spec_height() - 1);
    let y = c % (img.spec_height() - 1);
    if k % 2 == 0 {
        (upper_tri(img, x, y), img.spec_colours(gv(x, y)).0)
    } else {
        (lower_tri(img, x, y), img.spec_colours(gv(x, y)).1)
    }
}

impl GridImage {
    /// Enumerates every mesh triangle with its stored colour: for each
    /// lattice cell but the last row and column, the triangle over the
    /// cell's top and right, then the one over its left and bottom.
    pub fn get_triangles(&self) -> (r: Vec<(Tri, Colour)>)
        requires
            self.wf(),
        ensures
            r@.len() == mesh_tri_count(*self),
            forall|k: int| 0 <= k < r@.len() ==> r@[k] == mesh_tri(*self, k),
    {
        let w = self.width;
        let h = self.height;
        let mut out: Vec<(Tri, Colour)> = Vec::new();
        let mut x: usize = 0;
        while x < w - 1
            invariant
                self.wf(),
                w == self.spec_width(),
                h == self.spec_height(),
                x <= w - 1,
                out@.len() == 2 * (x * (h - 1)),
                forall|k: int| 0 <= k < out@.len() ==> out@[k] == mesh_tri(*self, k),
            decreases w - x,
        {
            let mut y: usize = 0;
            while y < h - 1
                invariant
                    self.wf(),
                    w == self.spec_width(),
                    h == self.spec_height(),
                    x < w - 1,
                    y <= h - 1,
                    out@.len() == 2 * (x * (h - 1) + y),
                    forall|k: int| 0 <= k < out@.len() ==> out@[k] == mesh_tri(*self, k),
                decreases h - y,
            {
                let vert = GridVertex { horizontal: x, vertical: y };
                let p00 = self.get_vert_position(&vert);
                let p10 = self.get_vert_position(&vert.right());
                let p11 = self.get_vert_position(&vert.down_right());
                let p01 = self.get_vert_position(&vert.down());
                let cols = self.get_vert_colours(&vert);
                proof {
                    let c = x as int * (h as int - 1) + y as int;
                    vstd::arithmetic::div_mod::lemma_fundamental_div_mod_converse(
                        2 * c,
                        2,
                        c,
                        0,
                    );
                    vstd::arithmetic::div_mod::lemma_fundamental_div_mod_converse(
                        2 * c + 1,
                        2,
                        c,
                        1,
                    );
                    vstd::arithmetic::div_mod::lemma_fundamental_div_mod_converse(
                        c,
                        h as int - 1,
                        x as int,
                        y as int,
                    );
                }
                out.push((Tri { first: p00, second: p10, third: p11 }, cols.0));
                out.push((Tri { first: p00, second: p11, third: p01 }, cols.1));
                y = y + 1;
            }
            proof {
                assert((x + 1) * (h as int - 1) == x * (h as int - 1) + (h as int - 1))
                    by (nonlinear_arith);
            }
            x = x + 1;
        }
        out
    }
}

/// The per-axis block size of the box fill at shift `e`: 2 to the `e`-th
/// canvas units per output pixel.
pub open spec fn shift_size(e: int) -> int {
    if e <= 0 {
        1
    } else if e == 1 {
        2
    } else if e == 2 {
        4
    } else if e == 3 {
        8
    } else if e == 4 {
        16
    } else if e == 5 {
        32
    } else if e == 6 {
        64
    } else if e == 7 {
        128
    } else if e == 8 {
        256
    } else if e == 9 {
        512
    } else if e == 10 {
        1024
    } else if e == 11 {
        2048
    } else if e == 12 {
        4096
    } else if e == 13 {
        8192
    } else if e == 14 {
        16384
    } else if e == 15 {
        32768
    } else {
        65536
    }
}

fn shift_size_exec(e: u8) -> (r: u32)
    requires
        e <= 16,
    ensures
        r == shift_size(e as int),
        1 <= r <= 65536,
{
    if e == 0 {
        1
    } else if e == 1 {
        2
    } else if e == 2 {
        4
    } else if e == 3 {
        8
    } else if e == 4 {
        16
    } else if e == 5 {
        32
    } else if e == 6 {
        64
    } else if e == 7 {
        128
    } else if e == 8 {
        256
    } else if e == 9 {
        512
    } else if e == 10 {
        1024
    } else if e == 11 {
        2048
    } else if e == 12 {
        4096
    } else if e == 13 {
        8192
    } else if e == 14 {
        16384
    } else if e == 15 {
        32768
    } else {
        65536
    }
}

/// A canvas point scaled down to box-fill pixels.
pub open spec fn scaled_point(p: Point, sx: int, sy: int) -> Point {
    Point { x: (p.x as int / sx) as u16, y: (p.y as int / sy) as u16 }
}

pub open spec fn scaled_tri(t: Tri, sx: int, sy: int) -> Tri {
    Tri {
        first: scaled_point(t.first, sx, sy),
        second: scaled_point(t.second, sx, sy),
        third: scaled_point(t.third, sx, sy),
    }
}

/// Which sides the box fill draws for the `k`-th mesh triangle: the upper
/// triangle of a cell draws its top and right sides, the lower one only
/// the shared diagonal, so neighbouring triangles do not double-draw a
/// shared side.
pub open spec fn box_flags(k: int) -> (bool, bool, bool) {
    if k % 2 == 0 {
        (true, true, false)
    } else {
        (true, false, false)
    }
}

/// Exactly the pairs the box fill emits: a pixel with the colour of a mesh
/// triangle whose scaled-down image passes the bounding-box inside test
/// with that triangle's side flags.
pub open spec fn box_raster_emits(img: GridImage, sx: int, sy: int, pc: (Point, Colour)) -> bool {
    exists|k: int|
        0 <= k < mesh_tri_count(img) && pc.1 == mesh_tri(img, k).1 && box_emits(
            scaled_tri(mesh_tri(img, k).0, sx, sy),
            box_flags(k).0,
            box_flags(k).1,
            box_flags(k).2,
            pc.0,
        )
}

fn scale_point_exec(p: Point, sx: u32, sy: u32) -> (r: Point)
    requires
        1 <= sx,
        1 <= sy,
    ensures
        r == scaled_point(p, sx as int, sy as int),
{
    proof {
        assert(p.x as int / (sx as int) <= p.x as int && p.y as int / (sy as int)
            <= p.y as int) by (nonlinear_arith)
            requires
                1 <= sx,
                1 <= sy,
                0 <= p.x,
                0 <= p.y,
        ;
    }
    Point { x: ((p.x as u32) / sx) as u16, y: ((p.y as u32) / sy) as u16 }
}

impl GridImage {
    /// Rasterizes the whole mesh by the brute-force box fill.  The
    /// `resolution` pair gives per-axis shifts in 0..=16: each output
    /// pixel covers a 2^shift square of canvas units.  Every mesh
    /// triangle is filled by the bounding-box inside test on its
    /// scaled-down corners, with shared sides drawn by one of the two
    /// triangles of a cell only.
    pub fn rasterize_box(&self, resolution: (u8, u8)) -> (r: Vec<(Point, Colour)>)
        requires
            self.wf(),
            resolution.0 <= 16,
            resolution.1 <= 16,
        ensures
            forall|pc: (Point, Colour)| #![trigger r@.contains(pc)]
                r@.contains(pc) <==> box_raster_emits(
                    *self,
                    shift_size(resolution.0 as int),
                    shift_size(resolution.1 as int),
                    pc,
                ),
    {
        let sx = shift_size_exec(resolution.0);
        let sy = shift_size_exec(resolution.1);
        let ghost sxi = sx as int;
        let ghost syi = sy as int;
        let tris = self.get_triangles();
        let mut out: Vec<(Point, Colour)> = Vec::new();
        let mut k: usize = 0;
        while k < tris.len()
            invariant
                self.wf(),
                1 <= sx <= 65536,
                1 <= sy <= 65536,
                sxi == sx as int,
                syi == sy as int,
                sxi == shift_size(resolution.0 as int),
                syi == shift_size(resolution.1 as int),
                k <= tris@.len(),
                tris@.len() == mesh_tri_count(*self),
                forall|j: int| 0 <= j < tris@.len() ==> tris@[j] == mesh_tri(*self, j),
                forall|pc: (Point, Colour)| #![trigger out@.contains(pc)]
                    out@.contains(pc) <==> exists|j: int|
                        0 <= j < k && pc.1 == mesh_tri(*self, j).1 && box_emits(
                            scaled_tri(mesh_tri(*self, j).0, sxi, syi),
                            box_flags(j).0,
                            box_flags(j).1,
                            box_flags(j).2,
                            pc.0,
                        ),
            decreases tris@.len() - k,
        {
            let tc = tris[k];
            let t = tc.0;
            let colour = tc.1;
            let scaled = Tri {
                first: scale_point_exec(t.first, sx, sy),
                second: scale_point_exec(t.second, sx, sy),
                third: scale_point_exec(t.third, sx, sy),
            };
            let draw_second_third = k % 2 == 0;
            let pts = scaled.rasterize(true, draw_second_third, false);
            let mut m: usize = 0;
            while m < pts.len()
                invariant
                    k < tris@.len(),
                    tris@.len() == mesh_tri_count(*self),
                    forall|j: int| 0 <= j < tris@.len() ==> tris@[j] == mesh_tri(*self, j),
                    m <= pts@.len(),
                    colour == mesh_tri(*self, k as int).1,
                    scaled == scaled_tri(mesh_tri(*self, k as int).0, sxi, syi),
                    draw_second_third == (k as int % 2 == 0),
                    forall|p: Point| #![trigger pts@.contains(p)]
                        pts@.contains(p) <==> box_emits(
                            scaled,
                            true,
                            draw_second_third,
                            false,
                            p,
                        ),
                    forall|i: int, j: int| 0 <= i < j < pts@.len() ==> pts@[i] != pts@[j],
                    forall|pc: (Point, Colour)| #![trigger out@.contains(pc)]
                        out@.contains(pc) <==> ((exists|j: int|
                            0 <= j < k && pc.1 == mesh_tri(*self, j).1 && box_emits(
                                scaled_tri(mesh_tri(*self, j).0, sxi, syi),
                                box_flags(j).0,
                                box_flags(j).1,
                                box_flags(j).2,
                                pc.0,
                            )) || (pc.1 == colour && pts@.take(m as int).contains(pc.0))),
                decreases pts@.len() - m,
            {
                let ghost prev = out@;
                out.push((pts[m], colour));
                proof {
                    assert(pts@.take(m as int + 1) =~= pts@.take(m as int).push(pts@[m as int]));
                    assert(pts@.take(m as int + 1).contains(pts@[m as int])) by {
                        assert(pts@.take(m as int + 1)[m as int] == pts@[m as int]);
                    }
                    assert(out@ == prev.push((pts@[m as int], colour)));
                    assert forall|pc: (Point, Colour)| #![trigger out@.contains(pc)]
                        out@.contains(pc) <==> ((exists|j: int|
                            0 <= j < k && pc.1 == mesh_tri(*self, j).1 && box_emits(
                                scaled_tri(mesh_tri(*self, j).0, sxi, syi),
                                box_flags(j).0,
                                box_flags(j).1,
                                box_flags(j).2,
                                pc.0,
                            )) || (pc.1 == colour && pts@.take(m as int + 1).contains(
                            pc.0,
                        ))) by {
                        let newpc = (pts@[m as int], colour);
                        if out@.contains(pc) {
                            let i = choose|i: int| 0 <= i < out@.len() && out@[i] == pc;
                            if i < prev.len() {
                                assert(prev[i] == pc);
                                assert(prev.contains(pc));
                                if pc.1 == colour && pts@.take(m as int).contains(pc.0) {
                                    let q = choose|q: int|
                                        0 <= q < m && #[trigger] pts@.take(m as int)[q] == pc.0;
                                    assert(pts@.take(m as int + 1)[q] == pc.0);
                                }
                            } else {
                                assert(pc == newpc);
                            }
                        } else {
                            if exists|j: int|
                                0 <= j < k && pc.1 == mesh_tri(*self, j).1 && box_emits(
                                    scaled_tri(#[trigger] mesh_tri(*self, j).0, sxi, syi),
                                    box_flags(j).0,
                                    box_flags(j).1,
                                    box_flags(j).2,
                                    pc.0,
                                ) {
                                assert(prev.contains(pc));
                                let i = choose|i: int| 0 <= i < prev.len() && prev[i] == pc;
                                assert(out@[i] == pc);
                                assert(false);
                            }
                            if pc.1 == colour && pts@.take(m as int + 1).contains(pc.0) {
                                let q = choose|q: int|
                                    0 <= q < m + 1 && #[trigger] pts@.take(m as int + 1)[q]
                                        == pc.0;
                                if q < m {
                                    assert(pts@.take(m as int)[q] == pc.0);
                                    assert(pts@.take(m as int).contains(pc.0));
                                    assert(prev.contains(pc));
                                    let i = choose|i: int|
                                        0 <= i < prev.len() && prev[i] == pc;
                                    assert(out@[i] == pc);
                                    assert(false);
                                } else {
                                    assert(pc.0 == pts@[m as int]);
                                    assert(out@[out@.len() - 1] == pc);
                                    assert(false);
                                }
                            }
                        }
                    }
                }
                m = m + 1;
            }
            proof {
                assert(pts@.take(pts@.len() as int) =~= pts@);
                assert forall|pc: (Point, Colour)| #![trigger out@.contains(pc)]
                    out@.contains(pc) <==> exists|j: int|
                        0 <= j < k + 1 && pc.1 == mesh_tri(*self, j).1 && box_emits(
                            scaled_tri(mesh_tri(*self, j).0, sxi, syi),
                            box_flags(j).0,
                            box_flags(j).1,
                            box_flags(j).2,
                            pc.0,
                        ) by {
                    if out@.contains(pc) {
                        if pc.1 == colour && pts@.contains(pc.0) {
                            assert(0 <= k < k + 1 && pc.1 == mesh_tri(*self, k as int).1
                                && box_emits(
                                scaled_tri(mesh_tri(*self, k as int).0, sxi, syi),
                                box_flags(k as int).0,
                                box_flags(k as int).1,
                                box_flags(k as int).2,
                                pc.0,
                            ));
                        }
                    } else {
                        if exists|j: int|
                            0 <= j < k + 1 && pc.1 == mesh_tri(*self, j).1 && box_emits(
                                scaled_tri(mesh_tri(*self, j).0, sxi, syi),
                                box_flags(j).0,
                                box_flags(j).1,
                                box_flags(j).2,
                                pc.0,
                            ) {
                            let j = choose|j: int|
                                0 <= j < k + 1 && pc.1 == mesh_tri(*self, j).1 && box_emits(
                                    scaled_tri(mesh_tri(*self, j).0, sxi, syi),
                                    box_flags(j).0,
                                    box_flags(j).1,
                                    box_flags(j).2,
                                    pc.0,
                                );
                            if j == k {
                                assert(pts@.contains(pc.0));
                                assert(false);
                            } else {
                                assert(false);
                            }
                        }
                    }
                }
            }
            k = k + 1;
        }
        out
    }

    /// Rasterizes the whole mesh by the scanline fill at the given block
    /// resolution, the sampling grid shifted by a sub-pixel offset.
    /// Every emitted pixel is in block units within the pixel counts of
    /// the resolution and carries the colour of the mesh triangle whose
    /// scanline walk produced it.
    pub fn rasterize_scanline(&self, resolution: Resolution, offset: (u16, u16)) -> (r: Vec<
        (Point, Colour),
    >)
        requires
            self.wf(),
            offset.0 < resolution.0.spec_pixel_size(),
            offset.1 < resolution.1.spec_pixel_size(),
        ensures
            r@ == mesh_scanline_spec(
                *self,
                mesh_tri_count(*self),
                resolution.0.spec_pixel_size(),
                resolution.1.spec_pixel_size(),
                offset.0 as int,
                offset.1 as int,
            ),
            forall|i: int|
                0 <= i < r@.len() ==> scanline_pixel_from(
                    *self,
                    mesh_tri_count(*self),
                    resolution,
                    offset,
                    #[trigger] r@[i],
                ),
            forall|i: int|
                0 <= i < r@.len() ==> (#[trigger] r@[i]).0.x < resolution.0.spec_pixel_count()
                    && r@[i].0.y < resolution.1.spec_pixel_count(),
    {
        proof {
            lemma_axis_resolution(resolution.0);
            lemma_axis_resolution(resolution.1);
        }
        let ghost sxi = resolution.0.spec_pixel_size();
        let ghost syi = resolution.1.spec_pixel_size();
        let ghost oxi = offset.0 as int;
        let ghost oyi = offset.1 as int;
        let sx = resolution.0.get_pixel_size();
        let sy = resolution.1.get_pixel_size();
        let cx = resolution.0.get_pixel_count();
        let cy = resolution.1.get_pixel_count();
        let off = (offset.0 as u32, offset.1 as u32);
        let tris = self.get_triangles();
        let mut out: Vec<(Point, Colour)> = Vec::new();
        let mut k: usize = 0;
        while k < tris.len()
            invariant
                self.wf(),
                sx == resolution.0.spec_pixel_size(),
                sy == resolution.1.spec_pixel_size(),
                cx == resolution.0.spec_pixel_count(),
                cy == resolution.1.spec_pixel_count(),
                sx as int * cx as int == 65536,
                sy as int * cy as int == 65536,
                1 <= sx <= 65536,
                1 <= sy <= 65536,
                off == (offset.0 as u32, offset.1 as u32),
                off.0 < sx,
                off.1 < sy,
                k <= tris@.len(),
                tris@.len() == mesh_tri_count(*self),
                forall|j: int| 0 <= j < tris@.len() ==> tris@[j] == mesh_tri(*self, j),
                sxi == sx as int,
                syi == sy as int,
                oxi == offset.0 as int,
                oyi == offset.1 as int,
                out@ == mesh_scanline_spec(*self, k as int, sxi, syi, oxi, oyi),
                forall|i: int|
                    0 <= i < out@.len() ==> scanline_pixel_from(
                        *self,
                        k as int,
                        resolution,
                        offset,
                        #[trigger] out@[i],
                    ),
                forall|i: int|
                    0 <= i < out@.len() ==> (#[trigger] out@[i]).0.x < cx && out@[i].0.y < cy,
            decreases tris@.len() - k,
        {
            let tc = tris[k];
            let t = tc.0;
            let colour = tc.1;
            let pts = scanline_points(t.first, t.second, t.third, (sx, sy), off);
            proof {
                assert forall|i: int| 0 <= i < out@.len() implies scanline_pixel_from(
                    *self,
                    k as int + 1,
                    resolution,
                    offset,
                    #[trigger] out@[i],
                ) by {
                    lemma_scanline_pixel_widen(*self, k as int, resolution, offset, out@[i]);
                }
            }
            let ghost out_at_tri = out@;
            let mut m: usize = 0;
            while m < pts.len()
                invariant
                    k < tris@.len(),
                    tris@.len() == mesh_tri_count(*self),
                    t == mesh_tri(*self, k as int).0,
                    colour == mesh_tri(*self, k as int).1,
                    sx == resolution.0.spec_pixel_size(),
                    sy == resolution.1.spec_pixel_size(),
                    cx == resolution.0.spec_pixel_count(),
                    cy == resolution.1.spec_pixel_count(),
                    sx as int * cx as int == 65536,
                    sy as int * cy as int == 65536,
                    1 <= sx <= 65536,
                    1 <= sy <= 65536,
                    off == (offset.0 as u32, offset.1 as u32),
                    sxi == sx as int,
                    syi == sy as int,
                    oxi == offset.0 as int,
                    oyi == offset.1 as int,
                    pts@ == scanline_spec(t.first, t.second, t.third, sxi, syi, oxi, oyi),
                    out_at_tri == mesh_scanline_spec(*self, k as int, sxi, syi, oxi, oyi),
                    out@ == out_at_tri + pts@.take(m as int).map_values(
                        |p: Point| (p, colour),
                    ),
                    m <= pts@.len(),
                    forall|i: int|
                        0 <= i < pts@.len() ==> scan_in_bounds(
                            t.first,
                            t.second,
                            t.third,
                            (sx, sy),
                            off,
                            #[trigger] pts@[i],
                        ),
                    forall|i: int|
                        0 <= i < out@.len() ==> scanline_pixel_from(
                            *self,
                            k as int + 1,
                            resolution,
                            offset,
                            #[trigger] out@[i],
                        ),
                    forall|i: int|
                        0 <= i < out@.len() ==> (#[trigger] out@[i]).0.x < cx && out@[i].0.y
                            < cy,
                decreases pts@.len() - m,
            {
                let p = pts[m];
                proof {
                    assert(p.x < cx && p.y < cy) by {
                        lemma_pixel_bound(p.x as int, sx as int, cx as int);
                        lemma_pixel_bound(p.y as int, sy as int, cy as int);
                    }
                }
                out.push((p, colour));
                proof {
                    assert(out@[out@.len() - 1] == (p, colour));
                    assert((p, colour).1 == (mesh_tri(*self, k as int)).1 && scan_in_bounds(
                        mesh_tri(*self, k as int).0.first,
                        mesh_tri(*self, k as int).0.second,
                        mesh_tri(*self, k as int).0.third,
                        (resolution.0.spec_pixel_size() as u32, resolution.1.spec_pixel_size() as u32),
                        (offset.0 as u32, offset.1 as u32),
                        (p, colour).0,
                    ));
                    assert(scanline_pixel_from(*self, k as int + 1, resolution, offset, (p, colour)));
                }
                m = m + 1;
            }
            k = k + 1;
        }
        out
    }
}

/// Exactly what the scanline fill emits over the first `n` mesh
/// triangles: each triangle's scanline points in order, paired with that
/// triangle's colour.
pub open spec fn mesh_scanline_spec(
    img: GridImage,
    n: int,
    sx: int,
    sy: int,
    ox: int,
    oy: int,
) -> Seq<(Point, Colour)>
    decreases n,
{
    if n <= 0 {
        Seq::empty()
    } else {
        let tc = mesh_tri(img, n - 1);
        mesh_scanline_spec(img, n - 1, sx, sy, ox, oy) + scanline_spec(
            tc.0.first,
            tc.0.second,
            tc.0.third,
            sx,
            sy,
            ox,
            oy,
        ).map_values(|p: Point| (p, tc.1))
    }
}

/// Whether `pc` is a pixel that the scanline walk of one of the first `n`
/// mesh triangles may emit: it carries that triangle's colour and lies,
/// scaled back to canvas units, within the triangle's scan bounds.
pub open spec fn scanline_pixel_from(
    img: GridImage,
    n: int,
    resolution: Resolution,
    offset: (u16, u16),
    pc: (Point, Colour),
) -> bool {
    exists|k: int|
        0 <= k < n && pc.1 == (#[trigger] mesh_tri(img, k)).1 && scan_in_bounds(
            mesh_tri(img, k).0.first,
            mesh_tri(img, k).0.second,
            mesh_tri(img, k).0.third,
            (resolution.0.spec_pixel_size() as u32, resolution.1.spec_pixel_size() as u32),
            (offset.0 as u32, offset.1 as u32),
            pc.0,
        )
}

/// A pixel drawn from one of the first `n` triangles is drawn from one of
/// the first `n + 1`.
proof fn lemma_scanline_pixel_widen(
    img: GridImage,
    n: int,
    resolution: Resolution,
    offset: (u16, u16),
    pc: (Point, Colour),
)
    requires
        scanline_pixel_from(img, n, resolution, offset, pc),
    ensures
        scanline_pixel_from(img, n + 1, resolution, offset, pc),
{
    let k = choose|k: int|
        0 <= k < n && pc.1 == (#[trigger] mesh_tri(img, k)).1 && scan_in_bounds(
            mesh_tri(img, k).0.first,
            mesh_tri(img, k).0.second,
            mesh_tri(img, k).0.third,
            (resolution.0.spec_pixel_size() as u32, resolution.1.spec_pixel_size() as u32),
            (offset.0 as u32, offset.1 as u32),
            pc.0,
        );
    assert(0 <= k < n + 1 && pc.1 == mesh_tri(img, k).1 && scan_in_bounds(
        mesh_tri(img, k).0.first,
        mesh_tri(img, k).0.second,
        mesh_tri(img, k).0.third,
        (resolution.0.spec_pixel_size() as u32, resolution.1.spec_pixel_size() as u32),
        (offset.0 as u32, offset.1 as u32),
        pc.0,
    ));
}

/// A block coordinate whose scaled value stays under the canvas span stays
/// under the block count.
proof fn lemma_pixel_bound(px: int, s: int, cnt: int)
    by (nonlinear_arith)
    requires
        1 <= s,
        0 <= px,
        px * s < s * cnt,
    ensures
        px < cnt,
{
}

} // verus!
