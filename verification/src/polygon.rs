use vstd::prelude::*;

verus! {

use crate::point::Point;
use crate::rng::rand_below;
use crate::tri::{area2_abs, area2_abs_exec, max3, min3, point_in_tri, Tri};

/// A fan of triangles sharing a root point: each edge pair, together with
/// the root, spans one triangle of the polygon.
pub struct Polygon {
    pub root: Point,
    pub edges: Vec<(Point, Point)>,
}

/// The summed doubled area of the fan over the first edges of the list.
pub open spec fn fan_area2(root: Point, edges: Seq<(Point, Point)>) -> int
    decreases edges.len(),
{
    if edges.len() == 0 {
        0
    } else {
        fan_area2(root, edges.drop_last()) + area2_abs(root, edges.last().0, edges.last().1)
    }
}

proof fn lemma_fan_area2_take_succ(root: Point, edges: Seq<(Point, Point)>, i: int)
    requires
        0 <= i < edges.len(),
    ensures
        fan_area2(root, edges.take(i + 1)) == fan_area2(root, edges.take(i)) + area2_abs(
            root,
            edges[i].0,
            edges[i].1,
        ),
{
    assert(edges.take(i + 1).drop_last() =~= edges.take(i));
    assert(edges.take(i + 1).last() == edges[i]);
}

proof fn lemma_fan_area2_take_le(root: Point, edges: Seq<(Point, Point)>, i: int)
    requires
        0 <= i <= edges.len(),
    ensures
        fan_area2(root, edges.take(i)) <= fan_area2(root, edges),
    decreases edges.len() - i,
{
    if i == edges.len() {
        assert(edges.take(i) =~= edges);
    } else {
        lemma_fan_area2_take_succ(root, edges, i);
        lemma_fan_area2_take_le(root, edges, i + 1);
    }
}

/// A weighted average of three coordinates with nonnegative weights that
/// add up to the scale stays between the smallest and the largest of them,
/// and its numerator stays within the scaled coordinate range.
proof fn lemma_convex3(wr: int, wa: int, wb: int, xr: int, xa: int, xb: int, m: int, big: int)
    requires
        0 <= wr,
        0 <= wa,
        0 <= wb,
        wr + wa + wb == 65536,
        0 <= xr <= 65535,
        0 <= xa <= 65535,
        0 <= xb <= 65535,
        m <= xr,
        m <= xa,
        m <= xb,
        xr <= big,
        xa <= big,
        xb <= big,
        0 <= m,
        big <= 65535,
    ensures
        0 <= wr * xr + wa * xa + wb * xb <= 65536 * 65535,
        m * 65536 <= wr * xr + wa * xa + wb * xb <= big * 65536,
        m <= (wr * xr + wa * xa + wb * xb) / 65536 <= big,
{
    assert(0 <= wr * xr + wa * xa + wb * xb <= 65536 * 65535 && m * 65536 <= wr * xr + wa * xa
        + wb * xb <= big * 65536) by (nonlinear_arith)
        requires
            0 <= wr,
            0 <= wa,
            0 <= wb,
            wr + wa + wb == 65536,
            0 <= xr <= 65535,
            0 <= xa <= 65535,
            0 <= xb <= 65535,
            m <= xr,
            m <= xa,
            m <= xb,
            xr <= big,
            xa <= big,
            xb <= big,
            0 <= m,
            big <= 65535,
    ;
    let sum = wr * xr + wa * xa + wb * xb;
    vstd::arithmetic::div_mod::lemma_div_is_ordered(m * 65536, sum, 65536);
    vstd::arithmetic::div_mod::lemma_div_is_ordered(sum, big * 65536, 65536);
    vstd::arithmetic::div_mod::lemma_div_by_multiple(m, 65536);
    vstd::arithmetic::div_mod::lemma_div_by_multiple(big, 65536);
}

/// The parallelogram fold on one axis: the root's and the two edge ends'
/// coordinates averaged with the given weights over the sampling scale.
pub open spec fn fold_coord(wr: int, wa: int, wb: int, xr: int, xa: int, xb: int) -> int {
    (wr * xr + wa * xa + wb * xb) / 65536
}

/// One coordinate of the parallelogram-fold sample: exactly the weighted
/// average of the root's and the two edge ends' coordinates, which always
/// lands between the smallest and the largest of the three.
pub fn convex_coord(wr: u64, wa: u64, wb: u64, xr: u16, xa: u16, xb: u16) -> (r: u16)
    requires
        wr + wa + wb == 65536,
    ensures
        r == fold_coord(wr as int, wa as int, wb as int, xr as int, xa as int, xb as int),
        min3(xr as int, xa as int, xb as int) <= r <= max3(xr as int, xa as int, xb as int),
{
    proof {
        lemma_convex3(
            wr as int,
            wa as int,
            wb as int,
            xr as int,
            xa as int,
            xb as int,
            min3(xr as int, xa as int, xb as int),
            max3(xr as int, xa as int, xb as int),
        );
    }
    let num = wr * (xr as u64) + wa * (xa as u64) + wb * (xb as u64);
    (num / 65536) as u16
}

impl Polygon {
    pub fn new(root: Point, edges: Vec<(Point, Point)>) -> (p: Polygon)
        ensures
            p.root == root,
            p.edges == edges,
    {
        Polygon { root, edges }
    }

    /// Draws a random point inside the polygon.  A triangle of the fan is
    /// chosen with probability proportional to its area, and a point
    /// inside it is sampled by the parallelogram-fold method; the result
    /// passes the sum-of-areas inside test of that triangle.  A candidate
    /// that whole-number rounding pushes out of a thin triangle, or a
    /// degenerate fan of zero total area, yields the root unchanged.
    pub fn get_random_point(&self) -> (r: Point)
        requires
            self.edges@.len() < 0x1_0000_0000,
        ensures
            fan_area2(self.root, self.edges@) == 0 ==> r == self.root,
            r == self.root || exists|i: int|
                0 <= i < self.edges@.len() && point_in_tri(
                    self.root,
                    (#[trigger] self.edges@[i]).0,
                    self.edges@[i].1,
                    r,
                ) && area2_abs(self.root, self.edges@[i].0, self.edges@[i].1) > 0,
    {
        let root = self.root;
        // The doubled area of each fan triangle, and their total.
        let mut areas: Vec<u64> = Vec::new();
        let mut total: u64 = 0;
        let mut i: usize = 0;
        while i < self.edges.len()
            invariant
                i <= self.edges@.len(),
                self.edges@.len() < 0x1_0000_0000,
                areas@.len() == i,
                root == self.root,
                forall|j: int|
                    0 <= j < i ==> areas@[j] == area2_abs(
                        root,
                        self.edges@[j].0,
                        self.edges@[j].1,
                    ),
                forall|j: int| 0 <= j < i ==> areas@[j] <= 0xFFFE_0001,
                total == fan_area2(root, self.edges@.take(i as int)),
                total <= i * 0xFFFE_0001,
            decreases self.edges@.len() - i,
        {
            let e = self.edges[i];
            let a = area2_abs_exec(root, e.0, e.1);
            proof {
                lemma_fan_area2_take_succ(root, self.edges@, i as int);
                assert((i + 1) * 0xFFFE_0001 == i * 0xFFFE_0001 + 0xFFFE_0001) by (nonlinear_arith);
            }
            total = total + a;
            areas.push(a);
            i = i + 1;
        }
        proof {
            assert(self.edges@.take(self.edges@.len() as int) =~= self.edges@);
        }
        if total == 0 {
            return root;
        }
        proof {
            assert(total as int <= 0xFFFF_FFFF * 0xFFFE_0001) by (nonlinear_arith)
                requires
                    total as int <= self.edges@.len() * 0xFFFE_0001,
                    self.edges@.len() < 0x1_0000_0000,
            ;
        }
        let draw = rand_below(total);
        // Walk the cumulative distribution to the chosen triangle.
        let mut idx: usize = 0;
        let mut acc: u64 = 0;
        while idx < areas.len() && draw >= acc + areas[idx]
            invariant
                idx <= areas@.len(),
                areas@.len() == self.edges@.len(),
                self.edges@.len() < 0x1_0000_0000,
                root == self.root,
                forall|j: int|
                    0 <= j < areas@.len() ==> areas@[j] == area2_abs(
                        root,
                        self.edges@[j].0,
                        self.edges@[j].1,
                    ),
                forall|j: int| 0 <= j < areas@.len() ==> areas@[j] <= 0xFFFE_0001,
                acc == fan_area2(root, self.edges@.take(idx as int)),
                acc <= draw,
                draw < total,
                total <= 0xFFFF_FFFF * 0xFFFE_0001,
                total == fan_area2(root, self.edges@),
            decreases areas@.len() - idx,
        {
            proof {
                lemma_fan_area2_take_succ(root, self.edges@, idx as int);
                lemma_fan_area2_take_le(root, self.edges@, idx as int + 1);
            }
            acc = acc + areas[idx];
            idx = idx + 1;
        }
        if idx >= areas.len() {
            // The draw is below the total, so the walk stops at some
            // triangle; this branch cannot be reached.
            proof {
                assert(self.edges@.take(idx as int) =~= self.edges@);
            }
            return root;
        }
        let e = self.edges[idx];
        proof {
            // The cumulative walk only stops at a triangle whose area
            // covers part of the draw, so the chosen one is not flat.
            assert(areas@[idx as int] > 0);
        }
        // Two independent uniform scalars over the sampling scale, folded
        // back into the triangle when their sum crosses it.
        let a_draw = rand_below(65537);
        let b_draw = rand_below(65537);
        let (wa, wb) = if a_draw + b_draw > 65536 {
            (65536 - a_draw, 65536 - b_draw)
        } else {
            (a_draw, b_draw)
        };
        let wr = 65536 - wa - wb;
        let x = convex_coord(wr, wa, wb, root.x, e.0.x, e.1.x);
        let y = convex_coord(wr, wa, wb, root.y, e.0.y, e.1.y);
        let p = Point { x, y };
        // The per-axis whole-number division can push the folded point out
        // of a thin triangle, so the sum-of-areas test has the last word:
        // a candidate it rejects falls back to the root, which never
        // fails.
        if Tri::new(root, e.0, e.1).contains(p) {
            proof {
                assert(point_in_tri(root, self.edges@[idx as int].0, self.edges@[idx as int].1, p)
                    && area2_abs(root, self.edges@[idx as int].0, self.edges@[idx as int].1) > 0);
            }
            p
        } else {
            root
        }
    }
}

} // verus!
