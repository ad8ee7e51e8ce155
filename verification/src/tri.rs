use vstd::prelude::*;

verus! {

use crate::point::Point;
use vstd::math::{max, min};

/// Twice the signed area of the triangle `(a, b, c)` by the shoelace
/// formula.  Positive for one winding, negative for the other.
pub open spec fn area2_signed(a: Point, b: Point, c: Point) -> int {
    a.x * (b.y - c.y) + b.x * (c.y - a.y) + c.x * (a.y - b.y)
}

pub open spec fn abs_int(v: int) -> int {
    if v < 0 {
        -v
    } else {
        v
    }
}

/// Twice the absolute area of the triangle `(a, b, c)`.
pub open spec fn area2_abs(a: Point, b: Point, c: Point) -> int {
    abs_int(area2_signed(a, b, c))
}

/// The absolute area of the triangle, halved to whole units as
/// `Tri::area` returns it.
pub open spec fn tri_area(a: Point, b: Point, c: Point) -> int {
    area2_abs(a, b, c) / 2
}

/// A point is inside the closed triangle exactly when the three triangles
/// it forms with the sides together cover the whole one: their doubled
/// areas add up to the triangle's own doubled area.
pub open spec fn point_in_tri(a: Point, b: Point, c: Point, p: Point) -> bool {
    area2_abs(a, b, p) + area2_abs(b, c, p) + area2_abs(a, c, p) == area2_abs(a, b, c)
}

/// A point lies on the closed segment from `a` to `b`: collinear with the
/// two ends and within their bounding box.
pub open spec fn point_on_edge(a: Point, b: Point, p: Point) -> bool {
    &&& area2_signed(a, b, p) == 0
    &&& min(a.x as int, b.x as int) <= p.x <= max(a.x as int, b.x as int)
    &&& min(a.y as int, b.y as int) <= p.y <= max(a.y as int, b.y as int)
}

/// The doubled area of any triangle with corners on the canvas is at most
/// the doubled area of the full canvas square, halved: 65535 * 65535.
pub proof fn lemma_area2_tight(a: Point, b: Point, c: Point)
    ensures
        area2_abs(a, b, c) <= 0xFFFE_0001,
{
    let x1 = a.x as int;
    let y1 = a.y as int;
    let x2 = b.x as int;
    let y2 = b.y as int;
    let x3 = c.x as int;
    let y3 = c.y as int;
    assert(x1 * (y2 - y3) + x2 * (y3 - y1) + x3 * (y1 - y2) == (x2 - x1) * (y3 - y1) - (x3 - x1)
        * (y2 - y1)) by (nonlinear_arith);
    assert(-0xFFFE_0001 <= (x2 - x1) * (y3 - y1) - (x3 - x1) * (y2 - y1)
        <= 0xFFFE_0001) by (nonlinear_arith)
        requires
            0 <= x1 <= 65535,
            0 <= y1 <= 65535,
            0 <= x2 <= 65535,
            0 <= y2 <= 65535,
            0 <= x3 <= 65535,
            0 <= y3 <= 65535,
    ;
}

/// A triangle between three points of the canvas.
#[derive(Copy, Clone, PartialEq, Eq, Structural, Debug)]
pub struct Tri {
    pub first: Point,
    pub second: Point,
    pub third: Point,
}

impl Tri {
    pub fn new(first: Point, second: Point, third: Point) -> (t: Tri)
        ensures
            t.first == first,
            t.second == second,
            t.third == third,
    {
        Tri { first, second, third }
    }

    /// The absolute area of the triangle in whole canvas units.
    pub fn area(&self) -> (r: i32)
        ensures
            r == tri_area(self.first, self.second, self.third),
            0 <= r <= 0x7FFF_0000,
    {
        let h = area2_abs_exec(self.first, self.second, self.third);
        (h / 2) as i32
    }

    /// Whether the point lies in the closed triangle, by the sum-of-areas
    /// identity.
    pub fn contains(&self, p: Point) -> (r: bool)
        ensures
            r == point_in_tri(self.first, self.second, self.third, p),
    {
        let s1 = area2_abs_exec(self.first, self.second, p);
        let s2 = area2_abs_exec(self.second, self.third, p);
        let s3 = area2_abs_exec(self.first, self.third, p);
        let whole = area2_abs_exec(self.first, self.second, self.third);
        s1 + s2 + s3 == whole
    }
}

/// Computes the doubled absolute area without overflow: every product in
/// the shoelace formula stays within a canvas-squared bound.
pub(crate) fn area2_abs_exec(a: Point, b: Point, c: Point) -> (r: u64)
    ensures
        r == area2_abs(a, b, c),
        r <= 0xFFFE_0001,
{
    let ax = a.x as i64;
    let ay = a.y as i64;
    let bx = b.x as i64;
    let by = b.y as i64;
    let cx = c.x as i64;
    let cy = c.y as i64;
    proof {
        lemma_shoelace_term_bound(ax as int, by as int - cy as int);
        lemma_shoelace_term_bound(bx as int, cy as int - ay as int);
        lemma_shoelace_term_bound(cx as int, ay as int - by as int);
    }
    let s: i64 = ax * (by - cy) + bx * (cy - ay) + cx * (ay - by);
    proof {
        lemma_area2_tight(a, b, c);
    }
    if s < 0 {
        (-s) as u64
    } else {
        s as u64
    }
}

/// One term of the shoelace formula is bounded by the canvas area.
proof fn lemma_shoelace_term_bound(x: int, d: int)
    by (nonlinear_arith)
    requires
        0 <= x <= 65535,
        -65535 <= d <= 65535,
    ensures
        -0xFFFE_0001 <= x * d <= 0xFFFE_0001,
{
}

pub open spec fn min3(a: int, b: int, c: int) -> int {
    min(min(a, b), c)
}

pub open spec fn max3(a: int, b: int, c: int) -> int {
    max(max(a, b), c)
}

/// The point lies in the bounding box of the triangle's corners.
pub open spec fn in_bbox(t: Tri, p: Point) -> bool {
    &&& min3(t.first.x as int, t.second.x as int, t.third.x as int) <= p.x <= max3(
        t.first.x as int,
        t.second.x as int,
        t.third.x as int,
    )
    &&& min3(t.first.y as int, t.second.y as int, t.third.y as int) <= p.y <= max3(
        t.first.y as int,
        t.second.y as int,
        t.third.y as int,
    )
}

/// Exactly the points the box fill emits: points of the bounding box that
/// pass the sum-of-areas inside test of a non-degenerate triangle, except
/// those lying on a side whose draw flag is off.
pub open spec fn box_emits(t: Tri, draw_fs: bool, draw_st: bool, draw_ft: bool, p: Point) -> bool {
    &&& in_bbox(t, p)
    &&& area2_abs(t.first, t.second, t.third) != 0
    &&& point_in_tri(t.first, t.second, t.third, p)
    &&& (draw_fs || !point_on_edge(t.first, t.second, p))
    &&& (draw_st || !point_on_edge(t.second, t.third, p))
    &&& (draw_ft || !point_on_edge(t.first, t.third, p))
}

/// The bounding-box cells strictly before column `x`, or in column `x`
/// strictly before row `y`, in the scan order of the box fill.
pub open spec fn scanned_before(p: Point, x: int, y: int) -> bool {
    p.x < x || (p.x == x && p.y < y)
}

fn min3_u16(a: u16, b: u16, c: u16) -> (r: u16)
    ensures
        r == min3(a as int, b as int, c as int),
{
    let m = if a < b {
        a
    } else {
        b
    };
    if m < c {
        m
    } else {
        c
    }
}

fn max3_u16(a: u16, b: u16, c: u16) -> (r: u16)
    ensures
        r == max3(a as int, b as int, c as int),
{
    let m = if a > b {
        a
    } else {
        b
    };
    if m > c {
        m
    } else {
        c
    }
}

/// Computes the signed doubled area; the same terms as `area2_abs_exec`,
/// kept before the absolute value is taken.
fn area2_signed_exec(a: Point, b: Point, c: Point) -> (r: i64)
    ensures
        r == area2_signed(a, b, c),
{
    let ax = a.x as i64;
    let ay = a.y as i64;
    let bx = b.x as i64;
    let by = b.y as i64;
    let cx = c.x as i64;
    let cy = c.y as i64;
    proof {
        lemma_shoelace_term_bound(ax as int, by as int - cy as int);
        lemma_shoelace_term_bound(bx as int, cy as int - ay as int);
        lemma_shoelace_term_bound(cx as int, ay as int - by as int);
    }
    ax * (by - cy) + bx * (cy - ay) + cx * (ay - by)
}

/// Whether `p` lies on the closed segment from `a` to `b`.
fn on_edge(a: Point, b: Point, p: Point) -> (r: bool)
    ensures
        r == point_on_edge(a, b, p),
{
    let collinear = area2_signed_exec(a, b, p) == 0;
    let lo_x = if a.x < b.x {
        a.x
    } else {
        b.x
    };
    let hi_x = if a.x > b.x {
        a.x
    } else {
        b.x
    };
    let lo_y = if a.y < b.y {
        a.y
    } else {
        b.y
    };
    let hi_y = if a.y > b.y {
        a.y
    } else {
        b.y
    };
    collinear && lo_x <= p.x && p.x <= hi_x && lo_y <= p.y && p.y <= hi_y
}

impl Tri {
    /// Rasterizes the triangle by a brute-force inside test over its
    /// bounding box.  The `draw_{x}_{y}` flags say whether points lying on
    /// the side between corners x and y are emitted; switching one off lets
    /// adjacent triangles avoid double-drawing a shared side.  A degenerate
    /// triangle emits nothing.
    pub fn rasterize(
        &self,
        draw_first_second: bool,
        draw_second_third: bool,
        draw_first_third: bool,
    ) -> (r: Vec<Point>)
        ensures
            forall|p: Point| #![trigger r@.contains(p)]
                r@.contains(p) <==> box_emits(
                    *self,
                    draw_first_second,
                    draw_second_third,
                    draw_first_third,
                    p,
                ),
            forall|i: int, j: int| 0 <= i < j < r@.len() ==> r@[i] != r@[j],
    {
        let mut out: Vec<Point> = Vec::new();
        let whole = area2_abs_exec(self.first, self.second, self.third);
        if whole == 0 {
            return out;
        }
        let min_x = min3_u16(self.first.x, self.second.x, self.third.x);
        let max_x = max3_u16(self.first.x, self.second.x, self.third.x);
        let min_y = min3_u16(self.first.y, self.second.y, self.third.y);
        let max_y = max3_u16(self.first.y, self.second.y, self.third.y);
        let mut x: u32 = min_x as u32;
        while x <= max_x as u32
            invariant
                min_x <= x,
                x <= max_x as u32 + 1,
                area2_abs(self.first, self.second, self.third) != 0,
                min_x == min3(self.first.x as int, self.second.x as int, self.third.x as int),
                max_x == max3(self.first.x as int, self.second.x as int, self.third.x as int),
                min_y == min3(self.first.y as int, self.second.y as int, self.third.y as int),
                max_y == max3(self.first.y as int, self.second.y as int, self.third.y as int),
                forall|p: Point| #![trigger out@.contains(p)]
                    out@.contains(p) <==> (box_emits(
                        *self,
                        draw_first_second,
                        draw_second_third,
                        draw_first_third,
                        p,
                    ) && scanned_before(p, x as int, min_y as int)),
                forall|i: int| 0 <= i < out@.len() ==> (out@[i].x as int) < x,
                forall|i: int, j: int| 0 <= i < j < out@.len() ==> out@[i] != out@[j],
            decreases max_x as int + 1 - x,
        {
            let mut y: u32 = min_y as u32;
            while y <= max_y as u32
                invariant
                    min_x <= x <= max_x,
                    min_y <= y,
                    y <= max_y as u32 + 1,
                    area2_abs(self.first, self.second, self.third) != 0,
                    min_x == min3(self.first.x as int, self.second.x as int, self.third.x as int),
                    max_x == max3(self.first.x as int, self.second.x as int, self.third.x as int),
                    min_y == min3(self.first.y as int, self.second.y as int, self.third.y as int),
                    max_y == max3(self.first.y as int, self.second.y as int, self.third.y as int),
                    forall|p: Point| #![trigger out@.contains(p)]
                        out@.contains(p) <==> (box_emits(
                            *self,
                            draw_first_second,
                            draw_second_third,
                            draw_first_third,
                            p,
                        ) && scanned_before(p, x as int, y as int)),
                    forall|i: int|
                        0 <= i < out@.len() ==> scanned_before(out@[i], x as int, y as int),
                    forall|i: int, j: int| 0 <= i < j < out@.len() ==> out@[i] != out@[j],
                decreases max_y as int + 1 - y,
            {
                let p = Point { x: x as u16, y: y as u16 };
                let inside = self.contains(p);
                let keep = inside && (draw_first_second || !on_edge(self.first, self.second, p))
                    && (draw_second_third || !on_edge(self.second, self.third, p))
                    && (draw_first_third || !on_edge(self.first, self.third, p));
                let ghost prev = out@;
                if keep {
                    out.push(p);
                }
                proof {
                    assert forall|q: Point| #![trigger out@.contains(q)]
                        out@.contains(q) <==> (box_emits(
                            *self,
                            draw_first_second,
                            draw_second_third,
                            draw_first_third,
                            q,
                        ) && scanned_before(q, x as int, y as int + 1)) by {
                        if keep {
                            assert(out@ == prev.push(p));
                            if out@.contains(q) {
                                let k = choose|k: int| 0 <= k < out@.len() && out@[k] == q;
                                if k < prev.len() {
                                    assert(prev[k] == q);
                                    assert(prev.contains(q));
                                } else {
                                    assert(q == p);
                                }
                            }
                            if q == p || prev.contains(q) {
                                if q == p {
                                    assert(out@[out@.len() - 1] == q);
                                } else {
                                    let k = choose|k: int| 0 <= k < prev.len() && prev[k] == q;
                                    assert(out@[k] == q);
                                }
                                assert(out@.contains(q));
                            }
                        } else {
                            if box_emits(
                                *self,
                                draw_first_second,
                                draw_second_third,
                                draw_first_third,
                                q,
                            ) && scanned_before(q, x as int, y as int + 1) && !scanned_before(
                                q,
                                x as int,
                                y as int,
                            ) {
                                assert(q == p);
                                assert(false);
                            }
                        }
                    }
                }
                y = y + 1;
            }
            proof {
                assert forall|q: Point| #![trigger out@.contains(q)]
                    out@.contains(q) <==> (box_emits(
                        *self,
                        draw_first_second,
                        draw_second_third,
                        draw_first_third,
                        q,
                    ) && scanned_before(q, x as int + 1, min_y as int)) by {
                    if box_emits(*self, draw_first_second, draw_second_third, draw_first_third, q) {
                        assert(in_bbox(*self, q));
                    }
                }
            }
            x = x + 1;
        }
        out
    }

    /// Walks the triangle with the scanline fill at full resolution: every
    /// emitted point lies within the triangle's bounding box, the right and
    /// top sides excluded; a zero-height triangle emits nothing.
    pub fn draw_triangle(&self) -> (r: Vec<Point>)
        ensures
            r@ == scanline_spec(self.first, self.second, self.third, 1, 1, 0, 0),
            forall|i: int|
                0 <= i < r@.len() ==> scan_in_bounds(
                    self.first,
                    self.second,
                    self.third,
                    (1u32, 1u32),
                    (0u32, 0u32),
                    r@[i],
                ),
            min3(self.first.y as int, self.second.y as int, self.third.y as int) == max3(
                self.first.y as int,
                self.second.y as int,
                self.third.y as int,
            ) ==> r@.len() == 0,
    {
        scanline_points(self.first, self.second, self.third, (1, 1), (0, 0))
    }
}

/// Where a point the scanline fill emits for triangle `(a, b, c)` must lie:
/// scaled back to canvas units through the block size and offset, it falls
/// in the bounding box, with the highest row and the right end of each row
/// excluded.
pub open spec fn scan_in_bounds(
    a: Point,
    b: Point,
    c: Point,
    step: (u32, u32),
    off: (u32, u32),
    p: Point,
) -> bool {
    &&& min3(a.x as int, b.x as int, c.x as int) <= p.x * step.0 + off.0 < max3(
        a.x as int,
        b.x as int,
        c.x as int,
    )
    &&& min3(a.y as int, b.y as int, c.y as int) <= p.y * step.1 + off.1 < max3(
        a.y as int,
        b.y as int,
        c.y as int,
    )
}

/// The smallest coordinate at or above `v` that lies on the sampling grid:
/// congruent to `off` modulo `step`.
pub open spec fn snap_up_spec(v: int, off: int, step: int) -> int {
    if v <= off {
        off
    } else {
        off + ((v - off + step - 1) / step) * step
    }
}

/// The x coordinate at height `y` of the straight edge from `(ax, ay)`
/// down to `(bx, by)`, interpolated with whole-number division.
pub open spec fn interp_spec(ax: int, ay: int, bx: int, by: int, y: int) -> int {
    if bx >= ax {
        ax + (bx - ax) * (ay - y) / (ay - by)
    } else {
        ax - (ax - bx) * (ay - y) / (ay - by)
    }
}

/// The three corners ordered by descending y, ties kept in argument
/// order.
pub open spec fn sort3_spec(a: Point, b: Point, c: Point) -> (Point, Point, Point) {
    let (hi, m1, m2) = if a.y >= b.y && a.y >= c.y {
        (a, b, c)
    } else if b.y >= a.y && b.y >= c.y {
        (b, a, c)
    } else {
        (c, a, b)
    };
    if m1.y >= m2.y {
        (hi, m1, m2)
    } else {
        (hi, m2, m1)
    }
}

/// The pixels the scanline fill emits in the row at canvas height `y`, in
/// block units: one per horizontal block from the snapped lower crossing
/// up to (excluding) the higher crossing of the triangle's edges.  A row
/// at the level of a horizontal bottom edge is skipped.
pub open spec fn row_pixels(
    v1: Point,
    v2: Point,
    v3: Point,
    sx: int,
    sy: int,
    ox: int,
    oy: int,
    y: int,
) -> Seq<Point> {
    if v2.y == v3.y && y <= v2.y {
        Seq::empty()
    } else {
        let long_x = interp_spec(v1.x as int, v1.y as int, v3.x as int, v3.y as int, y);
        let short_x = if y > v2.y {
            interp_spec(v1.x as int, v1.y as int, v2.x as int, v2.y as int, y)
        } else {
            interp_spec(v2.x as int, v2.y as int, v3.x as int, v3.y as int, y)
        };
        let lo = min(short_x, long_x);
        let hi = max(short_x, long_x);
        let start = snap_up_spec(lo, ox, sx);
        let n = if start >= hi {
            0
        } else {
            (hi - 1 - start) / sx + 1
        };
        Seq::new(n as nat, |k: int| Point { x: ((start - ox) / sx + k) as u16, y: ((y - oy) / sy) as u16 })
    }
}

/// The rows of the scanline fill from canvas height `y` up to (excluding)
/// the highest corner, one sampling-grid row after another.
pub open spec fn rows_from(
    v1: Point,
    v2: Point,
    v3: Point,
    sx: int,
    sy: int,
    ox: int,
    oy: int,
    y: int,
) -> Seq<Point>
    decreases max(v1.y - y, 0),
    when sy >= 1
{
    if y >= v1.y {
        Seq::empty()
    } else {
        row_pixels(v1, v2, v3, sx, sy, ox, oy, y) + rows_from(v1, v2, v3, sx, sy, ox, oy, y + sy)
    }
}

/// Exactly what the scanline fill emits for one triangle: its rows from
/// the lowest corner's snapped height upward, or nothing for a zero-height
/// triangle.
pub open spec fn scanline_spec(a: Point, b: Point, c: Point, sx: int, sy: int, ox: int, oy: int) -> Seq<
    Point,
> {
    let v = sort3_spec(a, b, c);
    if v.0.y == v.2.y {
        Seq::empty()
    } else {
        rows_from(v.0, v.1, v.2, sx, sy, ox, oy, snap_up_spec(v.2.y as int, oy, sy))
    }
}

fn snap_up(v: u32, off: u32, step: u32) -> (r: u32)
    requires
        1 <= step <= 65536,
        off < step,
        v <= 65535,
    ensures
        r == snap_up_spec(v as int, off as int, step as int),
        v <= r,
        off <= r,
        r < v + step,
        (r - off) % (step as int) == 0,
{
    if v <= off {
        off
    } else {
        let d = v - off + (step - 1);
        let k = d / step;
        proof {
            vstd::arithmetic::div_mod::lemma_fundamental_div_mod(d as int, step as int);
            vstd::arithmetic::div_mod::lemma_mod_bound(d as int, step as int);
            vstd::arithmetic::div_mod::lemma_mod_multiples_basic(k as int, step as int);
            vstd::arithmetic::mul::lemma_mul_is_commutative(k as int, step as int);
            assert(step * (k as int) == d as int - d as int % (step as int));
            assert(k as int * (step as int) <= d);
            assert(k as int * (step as int) >= d - (step - 1));
        }
        off + k * step
    }
}

/// An exact multiple of the block size divides back without loss, and the
/// quotient does not grow.
proof fn lemma_exact_div(a: int, step: int)
    by (nonlinear_arith)
    requires
        0 <= a,
        1 <= step,
        a % step == 0,
    ensures
        (a / step) * step == a,
        0 <= a / step <= a,
{
}

/// The quotient of a scaled difference stays below the difference itself.
proof fn lemma_interp_quotient(d: int, t: int, dy: int)
    by (nonlinear_arith)
    requires
        0 <= d <= 65535,
        0 <= t <= dy,
        1 <= dy,
        t <= 65535,
    ensures
        0 <= d * t <= 0xFFFE_0001,
        0 <= (d * t) / dy <= d,
{
}

/// The x coordinate at height `y` of the straight edge from `(ax, ay)` down
/// to `(bx, by)`, with truncating interpolation; it stays between the two
/// ends' x coordinates.
fn edge_x(ax: u32, ay: u32, bx: u32, by: u32, y: u32) -> (r: u32)
    requires
        ax <= 65535,
        bx <= 65535,
        ay <= 65535,
        by <= 65535,
        by < ay,
        by <= y <= ay,
    ensures
        r == interp_spec(ax as int, ay as int, bx as int, by as int, y as int),
        min(ax as int, bx as int) <= r <= max(ax as int, bx as int),
{
    let t = (ay - y) as u64;
    let dy = (ay - by) as u64;
    if bx >= ax {
        let d = (bx - ax) as u64;
        proof {
            lemma_interp_quotient(d as int, t as int, dy as int);
        }
        let q = (d * t / dy) as u32;
        ax + q
    } else {
        let d = (ax - bx) as u64;
        proof {
            lemma_interp_quotient(d as int, t as int, dy as int);
        }
        let q = (d * t / dy) as u32;
        ax - q
    }
}

/// Orders three points by descending y; the result is the same three
/// points.
fn sort3_by_y_desc(a: Point, b: Point, c: Point) -> (r: (Point, Point, Point))
    ensures
        r == sort3_spec(a, b, c),
        r.0.y >= r.1.y >= r.2.y,
        r.0 == a || r.0 == b || r.0 == c,
        r.1 == a || r.1 == b || r.1 == c,
        r.2 == a || r.2 == b || r.2 == c,
        r.0.y == max3(a.y as int, b.y as int, c.y as int),
        r.2.y == min3(a.y as int, b.y as int, c.y as int),
{
    let (hi, m1, m2) = if a.y >= b.y && a.y >= c.y {
        (a, b, c)
    } else if b.y >= a.y && b.y >= c.y {
        (b, a, c)
    } else {
        (c, a, b)
    };
    if m1.y >= m2.y {
        (hi, m1, m2)
    } else {
        (hi, m2, m1)
    }
}

/// The scanline fill of one triangle.  Rows run from the lowest corner up
/// to (excluding) the highest, snapped to the next multiple of the vertical
/// block size shifted by the sampling offset; in each row one point is
/// emitted per horizontal block between the two edges crossing it.  The
/// result is in block units.  A zero-height triangle emits nothing.
pub fn scanline_points(a: Point, b: Point, c: Point, step: (u32, u32), off: (u32, u32)) -> (r: Vec<
    Point,
>)
    requires
        1 <= step.0 <= 65536,
        1 <= step.1 <= 65536,
        off.0 < step.0,
        off.1 < step.1,
    ensures
        r@ == scanline_spec(a, b, c, step.0 as int, step.1 as int, off.0 as int, off.1 as int),
        forall|i: int| 0 <= i < r@.len() ==> scan_in_bounds(a, b, c, step, off, r@[i]),
        min3(a.y as int, b.y as int, c.y as int) == max3(
            a.y as int,
            b.y as int,
            c.y as int,
        ) ==> r@.len() == 0,
{
    let ghost sxi = step.0 as int;
    let ghost syi = step.1 as int;
    let ghost oxi = off.0 as int;
    let ghost oyi = off.1 as int;
    let mut out: Vec<Point> = Vec::new();
    let (p1, p2, p3) = sort3_by_y_desc(a, b, c);
    if p1.y == p3.y {
        proof {
            assert(out@ =~= scanline_spec(a, b, c, sxi, syi, oxi, oyi));
        }
        return out;
    }
    let v1x = p1.x as u32;
    let v1y = p1.y as u32;
    let v2x = p2.x as u32;
    let v2y = p2.y as u32;
    let v3x = p3.x as u32;
    let v3y = p3.y as u32;
    let step_x = step.0;
    let step_y = step.1;
    let off_x = off.0;
    let off_y = off.1;
    let ghost lo_x3 = min3(a.x as int, b.x as int, c.x as int);
    let ghost hi_x3 = max3(a.x as int, b.x as int, c.x as int);
    let mut y = snap_up(v3y, off_y, step_y);
    proof {
        assert(out@ + rows_from(p1, p2, p3, sxi, syi, oxi, oyi, y as int) =~= scanline_spec(
            a,
            b,
            c,
            sxi,
            syi,
            oxi,
            oyi,
        ));
    }
    while y < v1y
        invariant
            (p1, p2, p3) == sort3_spec(a, b, c),
            v1x == p1.x,
            v1y == p1.y,
            v2x == p2.x,
            v2y == p2.y,
            v3x == p3.x,
            v3y == p3.y,
            v1y <= 65535,
            v2y <= 65535,
            v3y <= 65535,
            v1x <= 65535,
            v2x <= 65535,
            v3x <= 65535,
            v3y <= v2y <= v1y,
            v3y < v1y,
            1 <= step_x <= 65536,
            1 <= step_y <= 65536,
            off_x < step_x,
            off_y < step_y,
            step == (step_x, step_y),
            off == (off_x, off_y),
            sxi == step_x as int,
            syi == step_y as int,
            oxi == off_x as int,
            oyi == off_y as int,
            v3y <= y,
            off_y <= y,
            (y - off_y) % (step_y as int) == 0,
            v1y == max3(a.y as int, b.y as int, c.y as int),
            v3y == min3(a.y as int, b.y as int, c.y as int),
            lo_x3 == min3(a.x as int, b.x as int, c.x as int),
            hi_x3 == max3(a.x as int, b.x as int, c.x as int),
            lo_x3 <= v1x <= hi_x3,
            lo_x3 <= v2x <= hi_x3,
            lo_x3 <= v3x <= hi_x3,
            forall|i: int| 0 <= i < out@.len() ==> scan_in_bounds(a, b, c, step, off, out@[i]),
            out@ + rows_from(p1, p2, p3, sxi, syi, oxi, oyi, y as int) == scanline_spec(
                a,
                b,
                c,
                sxi,
                syi,
                oxi,
                oyi,
            ),
        decreases v1y + step_y - y,
    {
        let ghost out_at_row = out@;
        let ghost row = row_pixels(p1, p2, p3, sxi, syi, oxi, oyi, y as int);
        // A row at the level of a horizontal bottom edge belongs to that
        // edge alone and is skipped; every other row crosses the long edge
        // and exactly one short edge.
        if y > v2y || v2y > v3y {
            let long_x = edge_x(v1x, v1y, v3x, v3y, y);
            let short_x = if y > v2y {
                edge_x(v1x, v1y, v2x, v2y, y)
            } else {
                edge_x(v2x, v2y, v3x, v3y, y)
            };
            let lo = if short_x < long_x {
                short_x
            } else {
                long_x
            };
            let hi = if short_x < long_x {
                long_x
            } else {
                short_x
            };
            let mut xd = snap_up(lo, off_x, step_x);
            let ghost start = xd as int;
            let ghost mut k: int = 0;
            proof {
                assert(row.len() == (if start >= hi {
                    0int
                } else {
                    (hi - 1 - start) / sxi + 1
                }));
            }
            while xd < hi
                invariant
                    row == row_pixels(p1, p2, p3, sxi, syi, oxi, oyi, y as int),
                    row.len() == (if start >= hi {
                        0int
                    } else {
                        (hi - 1 - start) / sxi + 1
                    }),
                    forall|j: int|
                        0 <= j < row.len() ==> #[trigger] row[j] == (Point {
                            x: ((start - oxi) / sxi + j) as u16,
                            y: ((y - oyi) / syi) as u16,
                        }),
                    lo_x3 <= lo <= hi,
                    hi <= hi_x3,
                    lo <= 65535,
                    hi <= 65535,
                    1 <= step_x <= 65536,
                    1 <= step_y <= 65536,
                    off_x < step_x,
                    off_y < step_y,
                    step == (step_x, step_y),
                    off == (off_x, off_y),
                    sxi == step_x as int,
                    syi == step_y as int,
                    oxi == off_x as int,
                    oyi == off_y as int,
                    start == snap_up_spec(lo as int, oxi, sxi),
                    lo <= start,
                    off_x <= start,
                    (start - oxi) % sxi == 0,
                    0 <= k,
                    xd == start + k * sxi,
                    k >= 1 ==> xd - step_x < hi,
                    off_x <= xd,
                    (xd - off_x) % (step_x as int) == 0,
                    off_y <= y <= 65535,
                    (y - off_y) % (step_y as int) == 0,
                    v1y == max3(a.y as int, b.y as int, c.y as int),
                    v3y == min3(a.y as int, b.y as int, c.y as int),
                    lo_x3 == min3(a.x as int, b.x as int, c.x as int),
                    hi_x3 == max3(a.x as int, b.x as int, c.x as int),
                    v3y <= y < v1y,
                    forall|i: int|
                        0 <= i < out@.len() ==> scan_in_bounds(a, b, c, step, off, out@[i]),
                    out@ == out_at_row + row.take(k),
                decreases hi + step_x - xd,
            {
                let px = (xd - off_x) / step_x;
                let py = (y - off_y) / step_y;
                proof {
                    lemma_exact_div(xd - off_x, step_x as int);
                    lemma_exact_div(y - off_y, step_y as int);
                    // This point is the k-th of the row.
                    assert(k * sxi <= hi - 1 - start);
                    vstd::arithmetic::div_mod::lemma_div_is_ordered(
                        k * sxi,
                        hi - 1 - start,
                        sxi,
                    );
                    assert((k * sxi) / sxi == k) by (nonlinear_arith)
                        requires
                            0 <= k,
                            1 <= sxi,
                    ;
                    assert(k < row.len());
                    lemma_grid_quotient(start - oxi, k, sxi);
                    assert((xd - off_x) as int == (start - oxi) + k * sxi);
                    assert(px as int == (start - oxi) / sxi + k);
                }
                let ghost prev = out@;
                out.push(Point { x: px as u16, y: py as u16 });
                proof {
                    assert(out@ == prev.push(Point { x: px as u16, y: py as u16 }));
                    assert(scan_in_bounds(a, b, c, step, off, out@[out@.len() - 1]));
                    assert forall|i: int|
                        0 <= i < out@.len() implies scan_in_bounds(a, b, c, step, off, out@[i]) by {
                        if i < prev.len() {
                            assert(out@[i] == prev[i]);
                        }
                    }
                    assert(row[k] == Point { x: px as u16, y: py as u16 });
                    assert(row.take(k + 1) =~= row.take(k).push(row[k]));
                    k = k + 1;
                }
                proof {
                    vstd::arithmetic::div_mod::lemma_add_mod_noop(
                        xd - off_x,
                        step_x as int,
                        step_x as int,
                    );
                    vstd::arithmetic::div_mod::lemma_mod_self_0(step_x as int);
                    vstd::arithmetic::div_mod::lemma_small_mod(0, step_x as nat);
                    assert(xd + step_x == start + (k * sxi)) by (nonlinear_arith)
                        requires
                            xd == start + (k - 1) * sxi,
                            sxi == step_x,
                    ;
                }
                xd = xd + step_x;
            }
            proof {
                // The walk stopped exactly at the end of the row.
                if k == 0 {
                    assert(start >= hi);
                    assert(row.len() == 0);
                } else {
                    assert((k - 1) * sxi == k * sxi - sxi) by (nonlinear_arith);
                    assert(start + (k - 1) * sxi < hi);
                    assert(0 <= hi - 1 - start - (k - 1) * sxi < sxi);
                    vstd::arithmetic::div_mod::lemma_fundamental_div_mod_converse(
                        hi - 1 - start,
                        sxi,
                        k - 1,
                        hi - 1 - start - (k - 1) * sxi,
                    );
                    assert(row.len() == k);
                }
                assert(row.take(k) =~= row);
                assert(out@ == out_at_row + row);
            }
        } else {
            proof {
                assert(row =~= Seq::<Point>::empty());
                assert(out@ =~= out_at_row + row);
            }
        }
        proof {
            vstd::arithmetic::div_mod::lemma_add_mod_noop(y - off_y, step_y as int, step_y as int);
            vstd::arithmetic::div_mod::lemma_mod_self_0(step_y as int);
            vstd::arithmetic::div_mod::lemma_small_mod(0, step_y as nat);
            assert(rows_from(p1, p2, p3, sxi, syi, oxi, oyi, y as int) == row + rows_from(
                p1,
                p2,
                p3,
                sxi,
                syi,
                oxi,
                oyi,
                y as int + syi,
            ));
            assert(out@ + rows_from(p1, p2, p3, sxi, syi, oxi, oyi, y as int + syi)
                =~= (out_at_row + row) + rows_from(p1, p2, p3, sxi, syi, oxi, oyi, y as int + syi));
            assert((out_at_row + row) + rows_from(p1, p2, p3, sxi, syi, oxi, oyi, y as int + syi)
                =~= out_at_row + (row + rows_from(p1, p2, p3, sxi, syi, oxi, oyi, y as int + syi)));
        }
        y = y + step_y;
    }
    proof {
        assert(rows_from(p1, p2, p3, sxi, syi, oxi, oyi, y as int) =~= Seq::<Point>::empty());
        assert(out@ =~= out@ + rows_from(p1, p2, p3, sxi, syi, oxi, oyi, y as int));
    }
    out
}

/// Stepping an exact multiple of the block size along the grid advances
/// the quotient by one step.
proof fn lemma_grid_quotient(a: int, k: int, step: int)
    by (nonlinear_arith)
    requires
        0 <= a,
        0 <= k,
        1 <= step,
        a % step == 0,
    ensures
        (a + k * step) / step == a / step + k,
{
}

} // verus!
