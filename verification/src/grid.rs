use vstd::prelude::*;

verus! {

use crate::colour::Colour;
use crate::point::Point;
use crate::polygon::Polygon;
use crate::tri::{area2_abs, point_in_tri};
use crate::rng::rand_below;

/// A lattice index pair naming one mesh vertex: column `horizontal` in
/// `0..width`, row `vertical` in `0..height`.  It is an index, not a
/// position.
#[derive(Copy, Clone, PartialEq, Eq, Structural, Debug)]
pub struct GridVertex {
    pub horizontal: usize,
    pub vertical: usize,
}

impl GridVertex {
    pub open spec fn spec_up(self) -> GridVertex {
        GridVertex { horizontal: self.horizontal, vertical: (self.vertical - 1) as usize }
    }

    pub open spec fn spec_up_right(self) -> GridVertex {
        GridVertex { horizontal: (self.horizontal + 1) as usize, vertical: (self.vertical - 1) as usize }
    }

    pub open spec fn spec_right(self) -> GridVertex {
        GridVertex { horizontal: (self.horizontal + 1) as usize, vertical: self.vertical }
    }

    pub open spec fn spec_down_right(self) -> GridVertex {
        GridVertex { horizontal: (self.horizontal + 1) as usize, vertical: (self.vertical + 1) as usize }
    }

    pub open spec fn spec_down(self) -> GridVertex {
        GridVertex { horizontal: self.horizontal, vertical: (self.vertical + 1) as usize }
    }

    pub open spec fn spec_down_left(self) -> GridVertex {
        GridVertex { horizontal: (self.horizontal - 1) as usize, vertical: (self.vertical + 1) as usize }
    }

    pub open spec fn spec_left(self) -> GridVertex {
        GridVertex { horizontal: (self.horizontal - 1) as usize, vertical: self.vertical }
    }

    pub open spec fn spec_up_left(self) -> GridVertex {
        GridVertex { horizontal: (self.horizontal - 1) as usize, vertical: (self.vertical - 1) as usize }
    }

    pub fn new(horizontal: usize, vertical: usize) -> (r: GridVertex)
        ensures
            r.horizontal == horizontal,
            r.vertical == vertical,
    {
        GridVertex { horizontal, vertical }
    }

    pub fn up(&self) -> (r: GridVertex)
        requires
            self.vertical >= 1,
        ensures
            r == self.spec_up(),
    {
        GridVertex::new(self.horizontal, self.vertical - 1)
    }

    pub fn up_right(&self) -> (r: GridVertex)
        requires
            self.vertical >= 1,
            self.horizontal < usize::MAX,
        ensures
            r == self.spec_up_right(),
    {
        GridVertex::new(self.horizontal + 1, self.vertical - 1)
    }

    pub fn right(&self) -> (r: GridVertex)
        requires
            self.horizontal < usize::MAX,
        ensures
            r == self.spec_right(),
    {
        GridVertex::new(self.horizontal + 1, self.vertical)
    }

    pub fn down_right(&self) -> (r: GridVertex)
        requires
            self.horizontal < usize::MAX,
            self.vertical < usize::MAX,
        ensures
            r == self.spec_down_right(),
    {
        GridVertex::new(self.horizontal + 1, self.vertical + 1)
    }

    pub fn down(&self) -> (r: GridVertex)
        requires
            self.vertical < usize::MAX,
        ensures
            r == self.spec_down(),
    {
        GridVertex::new(self.horizontal, self.vertical + 1)
    }

    pub fn down_left(&self) -> (r: GridVertex)
        requires
            self.horizontal >= 1,
            self.vertical < usize::MAX,
        ensures
            r == self.spec_down_left(),
    {
        GridVertex::new(self.horizontal - 1, self.vertical + 1)
    }

    pub fn left(&self) -> (r: GridVertex)
        requires
            self.horizontal >= 1,
        ensures
            r == self.spec_left(),
    {
        GridVertex::new(self.horizontal - 1, self.vertical)
    }

    pub fn up_left(&self) -> (r: GridVertex)
        requires
            self.horizontal >= 1,
            self.vertical >= 1,
        ensures
            r == self.spec_up_left(),
    {
        GridVertex::new(self.horizontal - 1, self.vertical - 1)
    }
}

/// The ordered cyclic set of edges between the neighbours of a vertex,
/// classified by where the vertex sits in the lattice.
pub enum GridNeighbourEdgeSet {
    Centre(Vec<(GridVertex, GridVertex)>),
    TopLeftCorner(Vec<(GridVertex, GridVertex)>),
    TopRightCorner(Vec<(GridVertex, GridVertex)>),
    BottomLeftCorner(Vec<(GridVertex, GridVertex)>),
    BottomRightCorner(Vec<(GridVertex, GridVertex)>),
    LeftEdge(Vec<(GridVertex, GridVertex)>),
    TopEdge(Vec<(GridVertex, GridVertex)>),
    RightEdge(Vec<(GridVertex, GridVertex)>),
    BottomEdge(Vec<(GridVertex, GridVertex)>),
}

pub open spec fn edge_set_pairs(s: GridNeighbourEdgeSet) -> Seq<(GridVertex, GridVertex)> {
    match s {
        GridNeighbourEdgeSet::Centre(e) => e@,
        GridNeighbourEdgeSet::TopLeftCorner(e) => e@,
        GridNeighbourEdgeSet::TopRightCorner(e) => e@,
        GridNeighbourEdgeSet::BottomLeftCorner(e) => e@,
        GridNeighbourEdgeSet::BottomRightCorner(e) => e@,
        GridNeighbourEdgeSet::LeftEdge(e) => e@,
        GridNeighbourEdgeSet::TopEdge(e) => e@,
        GridNeighbourEdgeSet::RightEdge(e) => e@,
        GridNeighbourEdgeSet::BottomEdge(e) => e@,
    }
}

/// The direct lattice neighbours of a vertex in cyclic (clockwise) order:
/// 3 for a corner, 5 for a non-corner border vertex, 8 for an interior
/// vertex.
pub open spec fn neighbour_list(v: GridVertex, w: int, h: int) -> Seq<GridVertex> {
    if v.horizontal == 0 && v.vertical == 0 {
        seq![v.spec_right(), v.spec_down_right(), v.spec_down()]
    } else if v.horizontal == 0 && v.vertical == h - 1 {
        seq![v.spec_up(), v.spec_up_right(), v.spec_right()]
    } else if v.horizontal == w - 1 && v.vertical == 0 {
        seq![v.spec_down(), v.spec_down_left(), v.spec_left()]
    } else if v.horizontal == w - 1 && v.vertical == h - 1 {
        seq![v.spec_left(), v.spec_up_left(), v.spec_up()]
    } else if v.horizontal == 0 {
        seq![v.spec_up(), v.spec_up_right(), v.spec_right(), v.spec_down_right(), v.spec_down()]
    } else if v.horizontal == w - 1 {
        seq![v.spec_down(), v.spec_down_left(), v.spec_left(), v.spec_up_left(), v.spec_up()]
    } else if v.vertical == 0 {
        seq![v.spec_right(), v.spec_down_right(), v.spec_down(), v.spec_down_left(), v.spec_left()]
    } else if v.vertical == h - 1 {
        seq![v.spec_left(), v.spec_up_left(), v.spec_up(), v.spec_up_right(), v.spec_right()]
    } else {
        seq![
            v.spec_up(),
            v.spec_up_right(),
            v.spec_right(),
            v.spec_down_right(),
            v.spec_down(),
            v.spec_down_left(),
            v.spec_left(),
            v.spec_up_left(),
        ]
    }
}

/// The edges between consecutive neighbours around the vertex, the cycle
/// closed from the last neighbour back to the first.
pub open spec fn neighbour_pairs(v: GridVertex, w: int, h: int) -> Seq<(GridVertex, GridVertex)> {
    let ns = neighbour_list(v, w, h);
    Seq::new(
        ns.len(),
        |i: int|
            (
                ns[i],
                ns[
                    if i + 1 == ns.len() {
                        0
                    } else {
                        i + 1
                    }
                ],
            ),
    )
}

pub open spec fn is_corner(v: GridVertex, w: int, h: int) -> bool {
    (v.horizontal == 0 || v.horizontal == w - 1) && (v.vertical == 0 || v.vertical == h - 1)
}

pub open spec fn is_border(v: GridVertex, w: int, h: int) -> bool {
    v.horizontal == 0 || v.horizontal == w - 1 || v.vertical == 0 || v.vertical == h - 1
}

/// Every vertex's cyclic neighbour set has exactly 3 (corner), 5
/// (non-corner border) or 8 (interior) neighbours, and as many edges, with
/// no neighbour repeated; and every neighbour is itself a lattice vertex.
pub proof fn lemma_neighbour_edges(v: GridVertex, w: int, h: int)
    requires
        2 <= w <= usize::MAX,
        2 <= h <= usize::MAX,
        v.horizontal < w,
        v.vertical < h,
    ensures
        neighbour_pairs(v, w, h).len() == neighbour_list(v, w, h).len(),
        is_corner(v, w, h) ==> neighbour_list(v, w, h).len() == 3,
        is_border(v, w, h) && !is_corner(v, w, h) ==> neighbour_list(v, w, h).len() == 5,
        !is_border(v, w, h) ==> neighbour_list(v, w, h).len() == 8,
        forall|i: int, j: int|
            0 <= i < j < neighbour_list(v, w, h).len() ==> neighbour_list(v, w, h)[i]
                != neighbour_list(v, w, h)[j],
        forall|i: int|
            0 <= i < neighbour_list(v, w, h).len() ==> (#[trigger] neighbour_list(v, w, h)[i]).horizontal
                < w && neighbour_list(v, w, h)[i].vertical < h,
{
}

/// A deformable lattice image: `width * height` vertices, each with a
/// position on the canvas and the two colours of the cell whose top-left
/// corner it is.  The lattice topology is fixed; only positions and
/// colours ever change.  Rows are stored contiguously: vertex `(x, y)`
/// lives at index `y * width + x`.
#[derive(Clone)]
pub struct GridImage {
    pub width: usize,
    pub height: usize,
    pub positions: Vec<Point>,
    pub colours: Vec<(Colour, Colour)>,
}

impl GridImage {
    pub open spec fn spec_width(&self) -> int {
        self.width as int
    }

    pub open spec fn spec_height(&self) -> int {
        self.height as int
    }

    pub open spec fn pos_seq(&self) -> Seq<Point> {
        self.positions@
    }

    pub open spec fn colour_seq(&self) -> Seq<(Colour, Colour)> {
        self.colours@
    }

    /// The structural well-formedness of the mesh: at least a 2-by-2
    /// lattice, with one position and one colour pair stored per vertex.
    pub open spec fn wf(&self) -> bool {
        &&& 2 <= self.spec_width()
        &&& 2 <= self.spec_height()
        &&& self.pos_seq().len() == self.spec_width() * self.spec_height()
        &&& self.colour_seq().len() == self.spec_width() * self.spec_height()
    }

    pub open spec fn vert_in_grid(&self, v: GridVertex) -> bool {
        v.horizontal < self.spec_width() && v.vertical < self.spec_height()
    }

    pub open spec fn spec_index(&self, v: GridVertex) -> int {
        v.vertical * self.spec_width() + v.horizontal
    }

    pub open spec fn spec_pos(&self, v: GridVertex) -> Point {
        self.pos_seq()[self.spec_index(v)]
    }

    pub open spec fn spec_colours(&self, v: GridVertex) -> (Colour, Colour) {
        self.colour_seq()[self.spec_index(v)]
    }

    pub fn width(&self) -> (r: usize)
        ensures
            r == self.spec_width(),
    {
        self.width
    }

    pub fn height(&self) -> (r: usize)
        ensures
            r == self.spec_height(),
    {
        self.height
    }

    pub fn get_vertex_positions(&self) -> (r: &Vec<Point>)
        ensures
            r@ == self.pos_seq(),
    {
        &self.positions
    }

    pub fn get_colours(&self) -> (r: &Vec<(Colour, Colour)>)
        ensures
            r@ == self.colour_seq(),
    {
        &self.colours
    }

    pub(crate) fn index_of(&self, vert: &GridVertex) -> (r: usize)
        requires
            self.wf(),
            self.vert_in_grid(*vert),
        ensures
            r == self.spec_index(*vert),
            r < self.pos_seq().len(),
            r < self.colour_seq().len(),
    {
        proof {
            lemma_grid_index(
                self.spec_width(),
                self.spec_height(),
                vert.horizontal as int,
                vert.vertical as int,
            );
        }
        let n = self.positions.len();
        vert.vertical * self.width + vert.horizontal
    }

    /// Looks up a vertex's position.
    pub fn get_vert_position(&self, vert: &GridVertex) -> (r: Point)
        requires
            self.wf(),
            self.vert_in_grid(*vert),
        ensures
            r == self.spec_pos(*vert),
    {
        let i = self.index_of(vert);
        self.positions[i]
    }

    /// Looks up the two cell colours a vertex owns.
    pub fn get_vert_colours(&self, vert: &GridVertex) -> (r: (Colour, Colour))
        requires
            self.wf(),
            self.vert_in_grid(*vert),
        ensures
            r == self.spec_colours(*vert),
    {
        let i = self.index_of(vert);
        self.colours[i]
    }

    /// Replaces the two cell colours a vertex owns.
    pub fn set_vert_colours(&mut self, vert: &GridVertex, pair: (Colour, Colour))
        requires
            old(self).wf(),
            old(self).vert_in_grid(*vert),
        ensures
            final(self).wf(),
            final(self).spec_width() == old(self).spec_width(),
            final(self).spec_height() == old(self).spec_height(),
            final(self).pos_seq() == old(self).pos_seq(),
            final(self).colour_seq() == old(self).colour_seq().update(
                old(self).spec_index(*vert),
                pair,
            ),
    {
        let i = self.index_of(vert);
        self.colours.set(i, pair);
    }
}

/// A lattice index stays within the row-major table.
pub proof fn lemma_grid_index(w: int, h: int, x: int, y: int)
    by (nonlinear_arith)
    requires
        0 <= x < w,
        0 <= y < h,
    ensures
        0 <= y * w + x < w * h,
{
}

/// A cell earlier in row-major order has a smaller row-major index.
proof fn lemma_row_major_lt(w: int, x: int, y: int, xx: int, yy: int)
    by (nonlinear_arith)
    requires
        0 <= xx < w,
        0 <= yy,
        0 <= x,
        yy < y || (yy == y && xx < x),
    ensures
        yy * w + xx < y * w + x,
{
}

/// A vertex placed on the uniform sub-grid stays on the canvas.
proof fn lemma_scaled_coord(x: int, n: int)
    by (nonlinear_arith)
    requires
        1 <= n,
        0 <= x <= n,
    ensures
        0 <= x * (65535 as int / n) <= 65535,
{
}

/// The position the uniform constructor gives lattice vertex `(x, y)`:
/// placed on a regular sub-grid spanning the whole canvas.
pub open spec fn uniform_pos(w: int, h: int, x: int, y: int) -> Point {
    Point { x: (x * (65535 as int / (w - 1))) as u16, y: (y * (65535 as int / (h - 1))) as u16 }
}

fn random_colour() -> Colour {
    Colour {
        r: rand_below(256) as u8,
        g: rand_below(256) as u8,
        b: rand_below(256) as u8,
    }
}

impl GridImage {
    /// Builds the uniform starting mesh: vertices on a regular sub-grid
    /// spanning the full canvas, colours drawn at random.
    pub fn new_uniform(width: usize, height: usize) -> (r: GridImage)
        requires
            2 <= width,
            2 <= height,
            width * height <= usize::MAX,
        ensures
            r.wf(),
            r.spec_width() == width,
            r.spec_height() == height,
            forall|x: int, y: int|
                0 <= x < width && 0 <= y < height ==> #[trigger] r.pos_seq()[y * width + x]
                    == uniform_pos(width as int, height as int, x, y),
    {
        let sep_x: usize = 65535 / (width - 1);
        let sep_y: usize = 65535 / (height - 1);
        let mut positions: Vec<Point> = Vec::new();
        let mut y: usize = 0;
        while y < height
            invariant
                2 <= width,
                2 <= height,
                width * height <= usize::MAX,
                y <= height,
                sep_x == 65535 as int / (width - 1),
                sep_y == 65535 as int / (height - 1),
                positions@.len() == y * width,
                forall|xx: int, yy: int|
                    0 <= xx < width && 0 <= yy < y ==> #[trigger] positions@[yy * width + xx]
                        == uniform_pos(width as int, height as int, xx, yy),
            decreases height - y,
        {
            let mut x: usize = 0;
            while x < width
                invariant
                    2 <= width,
                    2 <= height,
                    width * height <= usize::MAX,
                    y < height,
                    x <= width,
                    sep_x == 65535 as int / (width - 1),
                    sep_y == 65535 as int / (height - 1),
                    positions@.len() == y * width + x,
                    forall|xx: int, yy: int|
                        0 <= xx < width && (0 <= yy < y || (yy == y && 0 <= xx < x))
                            ==> #[trigger] positions@[yy * width + xx] == uniform_pos(
                            width as int,
                            height as int,
                            xx,
                            yy,
                        ),
                decreases width - x,
            {
                proof {
                    lemma_scaled_coord(x as int, width as int - 1);
                    lemma_scaled_coord(y as int, height as int - 1);
                    lemma_grid_index(width as int, height as int, x as int, y as int);
                }
                positions.push(Point { x: (x * sep_x) as u16, y: (y * sep_y) as u16 });
                proof {
                    assert forall|xx: int, yy: int|
                        0 <= xx < width && (0 <= yy < y || (yy == y && 0 <= xx < x
                            + 1)) implies #[trigger] positions@[yy * width + xx] == uniform_pos(
                        width as int,
                        height as int,
                        xx,
                        yy,
                    ) by {
                        if yy == y && xx == x {
                        } else {
                            lemma_row_major_lt(width as int, x as int, y as int, xx, yy);
                        }
                    }
                }
                x = x + 1;
            }
            proof {
                assert((y + 1) * width == y * width + width) by (nonlinear_arith);
            }
            y = y + 1;
        }
        proof {
            assert(height * width == width * height) by (nonlinear_arith);
        }
        let n = positions.len();
        let mut colours: Vec<(Colour, Colour)> = Vec::new();
        let mut k: usize = 0;
        while k < n
            invariant
                colours@.len() == k,
                k <= n,
            decreases n - k,
        {
            colours.push((random_colour(), random_colour()));
            k = k + 1;
        }
        GridImage { width, height, positions, colours }
    }

    /// Draws a uniformly random interior vertex: one with a full ring of
    /// eight neighbours.
    pub fn get_random_inner_vertex(&self) -> (r: GridVertex)
        requires
            self.wf(),
            3 <= self.spec_width(),
            3 <= self.spec_height(),
        ensures
            self.vert_in_grid(r),
            !is_border(r, self.spec_width(), self.spec_height()),
    {
        let horizontal = 1 + rand_below((self.width - 2) as u64) as usize;
        let vertical = 1 + rand_below((self.height - 2) as u64) as usize;
        GridVertex { horizontal, vertical }
    }

    /// Classifies a vertex by its place in the lattice and returns the
    /// cyclic set of edges between its neighbours.
    pub fn neighbour_edge_set(&self, vert: &GridVertex) -> (r: GridNeighbourEdgeSet)
        requires
            self.wf(),
            self.vert_in_grid(*vert),
        ensures
            edge_set_pairs(r) == neighbour_pairs(*vert, self.spec_width(), self.spec_height()),
            r is TopLeftCorner <==> (vert.horizontal == 0 && vert.vertical == 0),
            r is BottomLeftCorner <==> (vert.horizontal == 0 && vert.vertical
                == self.spec_height() - 1),
            r is TopRightCorner <==> (vert.horizontal == self.spec_width() - 1 && vert.vertical
                == 0),
            r is BottomRightCorner <==> (vert.horizontal == self.spec_width() - 1
                && vert.vertical == self.spec_height() - 1),
            r is LeftEdge <==> (vert.horizontal == 0 && 0 < vert.vertical
                < self.spec_height() - 1),
            r is RightEdge <==> (vert.horizontal == self.spec_width() - 1 && 0 < vert.vertical
                < self.spec_height() - 1),
            r is TopEdge <==> (vert.vertical == 0 && 0 < vert.horizontal
                < self.spec_width() - 1),
            r is BottomEdge <==> (vert.vertical == self.spec_height() - 1 && 0
                < vert.horizontal < self.spec_width() - 1),
            r is Centre <==> !is_border(*vert, self.spec_width(), self.spec_height()),
    {
        let w = self.width;
        let h = self.height;
        let v = *vert;
        let ghost wi = self.spec_width();
        let ghost hi = self.spec_height();
        if v.horizontal == 0 && v.vertical == 0 {
            let mut ns: Vec<GridVertex> = Vec::new();
            ns.push(v.right());
            ns.push(v.down_right());
            ns.push(v.down());
            proof {
                assert(ns@ =~= neighbour_list(v, wi, hi));
            }
            GridNeighbourEdgeSet::TopLeftCorner(cycle_pairs(&ns))
        } else if v.horizontal == 0 && v.vertical == h - 1 {
            let mut ns: Vec<GridVertex> = Vec::new();
            ns.push(v.up());
            ns.push(v.up_right());
            ns.push(v.right());
            proof {
                assert(ns@ =~= neighbour_list(v, wi, hi));
            }
            GridNeighbourEdgeSet::BottomLeftCorner(cycle_pairs(&ns))
        } else if v.horizontal == w - 1 && v.vertical == 0 {
            let mut ns: Vec<GridVertex> = Vec::new();
            ns.push(v.down());
            ns.push(v.down_left());
            ns.push(v.left());
            proof {
                assert(ns@ =~= neighbour_list(v, wi, hi));
            }
            GridNeighbourEdgeSet::TopRightCorner(cycle_pairs(&ns))
        } else if v.horizontal == w - 1 && v.vertical == h - 1 {
            let mut ns: Vec<GridVertex> = Vec::new();
            ns.push(v.left());
            ns.push(v.up_left());
            ns.push(v.up());
            proof {
                assert(ns@ =~= neighbour_list(v, wi, hi));
            }
            GridNeighbourEdgeSet::BottomRightCorner(cycle_pairs(&ns))
        } else if v.horizontal == 0 {
            let mut ns: Vec<GridVertex> = Vec::new();
            ns.push(v.up());
            ns.push(v.up_right());
            ns.push(v.right());
            ns.push(v.down_right());
            ns.push(v.down());
            proof {
                assert(ns@ =~= neighbour_list(v, wi, hi));
            }
            GridNeighbourEdgeSet::LeftEdge(cycle_pairs(&ns))
        } else if v.horizontal == w - 1 {
            let mut ns: Vec<GridVertex> = Vec::new();
            ns.push(v.down());
            ns.push(v.down_left());
            ns.push(v.left());
            ns.push(v.up_left());
            ns.push(v.up());
            proof {
                assert(ns@ =~= neighbour_list(v, wi, hi));
            }
            GridNeighbourEdgeSet::RightEdge(cycle_pairs(&ns))
        } else if v.vertical == 0 {
            let mut ns: Vec<GridVertex> = Vec::new();
            ns.push(v.right());
            ns.push(v.down_right());
            ns.push(v.down());
            ns.push(v.down_left());
            ns.push(v.left());
            proof {
                assert(ns@ =~= neighbour_list(v, wi, hi));
            }
            GridNeighbourEdgeSet::TopEdge(cycle_pairs(&ns))
        } else if v.vertical == h - 1 {
            let mut ns: Vec<GridVertex> = Vec::new();
            ns.push(v.left());
            ns.push(v.up_left());
            ns.push(v.up());
            ns.push(v.up_right());
            ns.push(v.right());
            proof {
                assert(ns@ =~= neighbour_list(v, wi, hi));
            }
            GridNeighbourEdgeSet::BottomEdge(cycle_pairs(&ns))
        } else {
            let mut ns: Vec<GridVertex> = Vec::new();
            ns.push(v.up());
            ns.push(v.up_right());
            ns.push(v.right());
            ns.push(v.down_right());
            ns.push(v.down());
            ns.push(v.down_left());
            ns.push(v.left());
            ns.push(v.up_left());
            proof {
                assert(ns@ =~= neighbour_list(v, wi, hi));
            }
            GridNeighbourEdgeSet::Centre(cycle_pairs(&ns))
        }
    }

    /// The edges of a vertex's star polygon, as pairs of positions in
    /// cyclic order.
    pub open spec fn star_edges(&self, v: GridVertex) -> Seq<(Point, Point)> {
        let pairs = neighbour_pairs(v, self.spec_width(), self.spec_height());
        Seq::new(pairs.len(), |i: int| (self.spec_pos(pairs[i].0), self.spec_pos(pairs[i].1)))
    }

    /// Draws a random point within the polygon of a vertex's neighbours.
    /// The point passes the sum-of-areas inside test of one of the star's
    /// fan triangles, or is the vertex's own position when the star has
    /// collapsed to zero area or the candidate rounded out of a thin
    /// triangle.
    pub fn get_random_point_in_vertex_polygon(&self, vert: &GridVertex) -> (r: Point)
        requires
            self.wf(),
            self.vert_in_grid(*vert),
        ensures
            r == self.spec_pos(*vert) || exists|i: int|
                0 <= i < self.star_edges(*vert).len() && point_in_tri(
                    self.spec_pos(*vert),
                    (#[trigger] self.star_edges(*vert)[i]).0,
                    self.star_edges(*vert)[i].1,
                    r,
                ) && area2_abs(
                    self.spec_pos(*vert),
                    self.star_edges(*vert)[i].0,
                    self.star_edges(*vert)[i].1,
                ) > 0,
    {
        let edge_set = self.neighbour_edge_set(vert);
        let pairs: &Vec<(GridVertex, GridVertex)> = match &edge_set {
            GridNeighbourEdgeSet::Centre(e) => e,
            GridNeighbourEdgeSet::TopLeftCorner(e) => e,
            GridNeighbourEdgeSet::TopRightCorner(e) => e,
            GridNeighbourEdgeSet::BottomLeftCorner(e) => e,
            GridNeighbourEdgeSet::BottomRightCorner(e) => e,
            GridNeighbourEdgeSet::LeftEdge(e) => e,
            GridNeighbourEdgeSet::TopEdge(e) => e,
            GridNeighbourEdgeSet::RightEdge(e) => e,
            GridNeighbourEdgeSet::BottomEdge(e) => e,
        };
        proof {
            lemma_neighbour_edges(*vert, self.spec_width(), self.spec_height());
        }
        let mut edges: Vec<(Point, Point)> = Vec::new();
        let mut i: usize = 0;
        while i < pairs.len()
            invariant
                self.wf(),
                self.vert_in_grid(*vert),
                i <= pairs@.len(),
                pairs@ == neighbour_pairs(*vert, self.spec_width(), self.spec_height()),
                forall|j: int|
                    0 <= j < pairs@.len() ==> self.vert_in_grid(#[trigger] pairs@[j].0)
                        && self.vert_in_grid(pairs@[j].1),
                edges@.len() == i,
                forall|j: int|
                    0 <= j < i ==> #[trigger] edges@[j] == (
                        self.spec_pos(pairs@[j].0),
                        self.spec_pos(pairs@[j].1),
                    ),
            decreases pairs@.len() - i,
        {
            let pr = pairs[i];
            edges.push((self.get_vert_position(&pr.0), self.get_vert_position(&pr.1)));
            i = i + 1;
        }
        proof {
            assert(edges@ =~= self.star_edges(*vert));
        }
        let poly = Polygon::new(self.get_vert_position(vert), edges);
        poly.get_random_point()
    }
}

/// The edges between consecutive entries of a cyclic vertex list, closed
/// from the last entry back to the first.
fn cycle_pairs(ns: &Vec<GridVertex>) -> (r: Vec<(GridVertex, GridVertex)>)
    requires
        ns@.len() >= 1,
    ensures
        r@ == Seq::new(
            ns@.len(),
            |i: int|
                (
                    ns@[i],
                    ns@[
                        if i + 1 == ns@.len() {
                            0
                        } else {
                            i + 1
                        }
                    ],
                ),
        ),
{
    let mut r: Vec<(GridVertex, GridVertex)> = Vec::new();
    let mut i: usize = 0;
    while i < ns.len()
        invariant
            i <= ns@.len(),
            ns@.len() >= 1,
            r@.len() == i,
            forall|j: int|
                0 <= j < i ==> #[trigger] r@[j] == (
                    ns@[j],
                    ns@[
                        if j + 1 == ns@.len() {
                            0
                        } else {
                            j + 1
                        }
                    ],
                ),
        decreases ns@.len() - i,
    {
        let succ = if i + 1 == ns.len() {
            ns[0]
        } else {
            ns[i + 1]
        };
        r.push((ns[i], succ));
        i = i + 1;
    }
    proof {
        assert(r@ =~= Seq::new(
            ns@.len(),
            |i: int|
                (
                    ns@[i],
                    ns@[
                        if i + 1 == ns@.len() {
                            0
                        } else {
                            i + 1
                        }
                    ],
                ),
        ));
    }
    r
}

} // verus!
