use vstd::prelude::*;

verus! {

use crate::colour::Colour;
use crate::grid::{is_border, GridImage, GridVertex};
use crate::point::Point;
use crate::rng::rand_below;
use crate::tri::{area2_abs, point_in_tri};

/// The scale of mutation rates: a rate of 0 never mutates, a rate of
/// `MUTATION_RATE_SCALE` always does.
pub const MUTATION_RATE_SCALE: u32 = 65536;

/// Each channel moved by at most 20 steps, clamped to the channel range.
pub open spec fn channel_jittered(before: u8, after: u8) -> bool {
    &&& (if before >= 20 {
        before - 20
    } else {
        0
    }) <= after
    &&& after <= (if before <= 235 {
        before + 20
    } else {
        255
    })
}

pub open spec fn colour_jittered(before: Colour, after: Colour) -> bool {
    &&& channel_jittered(before.r, after.r)
    &&& channel_jittered(before.g, after.g)
    &&& channel_jittered(before.b, after.b)
}

/// What one round of colour mutation may do at a given rate: keep the
/// colour or jitter every channel; a zero rate always keeps it, a full
/// rate always jitters.
pub open spec fn colour_mutated(before: Colour, after: Colour, rate: u32) -> bool {
    &&& after == before || colour_jittered(before, after)
    &&& rate == 0 ==> after == before
    &&& rate >= MUTATION_RATE_SCALE ==> colour_jittered(before, after)
}

/// One channel redrawn uniformly from the clamped 20-step window around
/// its old value.
fn jitter_channel(c: u8) -> (r: u8)
    ensures
        channel_jittered(c, r),
{
    let lo: u8 = if c >= 20 {
        c - 20
    } else {
        0
    };
    let hi: u8 = if c <= 235 {
        c + 20
    } else {
        255
    };
    lo + rand_below((hi - lo) as u64 + 1) as u8
}

/// With probability `mutation_rate / MUTATION_RATE_SCALE`, redraws each
/// channel from the clamped window around its old value; otherwise leaves
/// the colour untouched.
pub fn mutate_colour(colour: Colour, mutation_rate: u32) -> (r: Colour)
    requires
        mutation_rate <= MUTATION_RATE_SCALE,
    ensures
        colour_mutated(colour, r, mutation_rate),
{
    if rand_below(MUTATION_RATE_SCALE as u64) < mutation_rate as u64 {
        Colour {
            r: jitter_channel(colour.r),
            g: jitter_channel(colour.g),
            b: jitter_channel(colour.b),
        }
    } else {
        colour
    }
}

/// The two points lie within straight-line distance `r` of each other,
/// compared through squared distances to stay in whole numbers.
pub open spec fn within_radius(a: Point, b: Point, r: int) -> bool {
    (a.x - b.x) * (a.x - b.x) + (a.y - b.y) * (a.y - b.y) <= r * r
}

/// Whether `b` lies within straight-line distance `r` of `a`, by the
/// squared-distance comparison `within_radius` states.
fn in_distance(a: Point, b: Point, r: u32) -> (res: bool)
    ensures
        res == within_radius(a, b, r as int),
{
    let dx: u64 = if a.x >= b.x {
        (a.x - b.x) as u64
    } else {
        (b.x - a.x) as u64
    };
    let dy: u64 = if a.y >= b.y {
        (a.y - b.y) as u64
    } else {
        (b.y - a.y) as u64
    };
    proof {
        assert(dx as int * dx as int == (a.x - b.x) * (a.x - b.x) && dx as int * dx as int
            <= 0xFFFE_0001) by (nonlinear_arith)
            requires
                dx as int == (if a.x >= b.x {
                    a.x - b.x
                } else {
                    b.x - a.x
                }),
                0 <= a.x <= 65535,
                0 <= b.x <= 65535,
        ;
        assert(dy as int * dy as int == (a.y - b.y) * (a.y - b.y) && dy as int * dy as int
            <= 0xFFFE_0001) by (nonlinear_arith)
            requires
                dy as int == (if a.y >= b.y {
                    a.y - b.y
                } else {
                    b.y - a.y
                }),
                0 <= a.y <= 65535,
                0 <= b.y <= 65535,
        ;
        assert(r as int * r as int <= 0xFFFF_FFFF * 0xFFFF_FFFF) by (nonlinear_arith)
            requires
                0 <= r <= 0xFFFF_FFFF,
        ;
    }
    dx * dx + dy * dy <= (r as u64) * (r as u64)
}

/// Two distinct lattice vertices have distinct row-major indices.
pub proof fn lemma_grid_index_injective(w: int, h: int, a: GridVertex, b: GridVertex)
    by (nonlinear_arith)
    requires
        a.horizontal < w,
        a.vertical < h,
        b.horizontal < w,
        b.vertical < h,
        a != b,
    ensures
        a.vertical * w + a.horizontal != b.vertical * w + b.horizontal,
{
}

impl GridImage {
    /// Moves one vertex to a point sampled from its current star polygon.
    /// Only that vertex's position changes; the mesh keeps its dimensions
    /// and colours.  A present `radius` additionally bounds the move: a
    /// sample farther than that from the old position is not taken, and
    /// the vertex stays where it was — the fitness-safe fallback.
    pub fn mutate_structure(&mut self, vert: &GridVertex, radius: Option<u32>)
        requires
            old(self).wf(),
            old(self).vert_in_grid(*vert),
        ensures
            final(self).wf(),
            final(self).spec_width() == old(self).spec_width(),
            final(self).spec_height() == old(self).spec_height(),
            final(self).colour_seq() == old(self).colour_seq(),
            final(self).pos_seq() == old(self).pos_seq().update(
                old(self).spec_index(*vert),
                final(self).spec_pos(*vert),
            ),
            final(self).spec_pos(*vert) == old(self).spec_pos(*vert) || exists|i: int|
                0 <= i < old(self).star_edges(*vert).len() && point_in_tri(
                    old(self).spec_pos(*vert),
                    (#[trigger] old(self).star_edges(*vert)[i]).0,
                    old(self).star_edges(*vert)[i].1,
                    final(self).spec_pos(*vert),
                ) && area2_abs(
                    old(self).spec_pos(*vert),
                    old(self).star_edges(*vert)[i].0,
                    old(self).star_edges(*vert)[i].1,
                ) > 0,
            radius matches Some(rad) ==> within_radius(
                old(self).spec_pos(*vert),
                final(self).spec_pos(*vert),
                rad as int,
            ),
    {
        let point = self.get_random_point_in_vertex_polygon(vert);
        let idx = self.index_of(vert);
        let old_pos = self.positions[idx];
        let accepted = match radius {
            None => true,
            Some(rad) => in_distance(old_pos, point, rad),
        };
        if accepted {
            self.positions.set(idx, point);
            proof {
                assert(old_pos == old(self).spec_pos(*vert));
                assert(self.spec_pos(*vert) == point);
                if let Some(rad) = radius {
                    assert(within_radius(old_pos, point, rad as int));
                }
            }
        } else {
            proof {
                assert(self.pos_seq() =~= self.pos_seq().update(
                    self.spec_index(*vert),
                    self.spec_pos(*vert),
                ));
            }
            if let Some(rad) = radius {
                proof {
                    assert(0 <= rad as int * rad as int) by (nonlinear_arith);
                }
            }
        }
    }

    /// Applies colour mutation at the given rate to both triangle colours
    /// of every lattice cell, independently.
    pub fn mutate_colours(&mut self, mutation_rate: u32)
        requires
            old(self).wf(),
            mutation_rate <= MUTATION_RATE_SCALE,
        ensures
            final(self).wf(),
            final(self).spec_width() == old(self).spec_width(),
            final(self).spec_height() == old(self).spec_height(),
            final(self).pos_seq() == old(self).pos_seq(),
            final(self).colour_seq().len() == old(self).colour_seq().len(),
            forall|j: int|
                0 <= j < final(self).colour_seq().len() ==> colour_mutated(
                    old(self).colour_seq()[j].0,
                    (#[trigger] final(self).colour_seq()[j]).0,
                    mutation_rate,
                ) && colour_mutated(
                    old(self).colour_seq()[j].1,
                    final(self).colour_seq()[j].1,
                    mutation_rate,
                ),
    {
        let n = self.colours.len();
        let mut j: usize = 0;
        while j < n
            invariant
                self.wf(),
                mutation_rate <= MUTATION_RATE_SCALE,
                j <= n,
                n == self.colour_seq().len(),
                self.spec_width() == old(self).spec_width(),
                self.spec_height() == old(self).spec_height(),
                self.pos_seq() == old(self).pos_seq(),
                self.colour_seq().len() == old(self).colour_seq().len(),
                forall|k: int|
                    j <= k < n ==> #[trigger] self.colour_seq()[k] == old(self).colour_seq()[k],
                forall|k: int|
                    0 <= k < j ==> colour_mutated(
                        old(self).colour_seq()[k].0,
                        (#[trigger] self.colour_seq()[k]).0,
                        mutation_rate,
                    ) && colour_mutated(
                        old(self).colour_seq()[k].1,
                        self.colour_seq()[k].1,
                        mutation_rate,
                    ),
            decreases n - j,
        {
            let pair = self.colours[j];
            let mutated = (mutate_colour(pair.0, mutation_rate), mutate_colour(
                pair.1,
                mutation_rate,
            ));
            self.colours.set(j, mutated);
            j = j + 1;
        }
    }
}

/// Everything breeding promises of the child mesh: the parents'
/// dimensions; every cell colour picked from one parent and
/// colour-mutated at the given rate; the shape inherited wholesale from
/// one parent, after which only interior vertices may have moved — so the
/// border still matches one parent throughout, and at rate zero the whole
/// shape is exactly one parent's.
pub open spec fn breed_post(left: GridImage, right: GridImage, rate: u32, child: GridImage) -> bool {
    &&& child.wf()
    &&& child.spec_width() == left.spec_width()
    &&& child.spec_height() == left.spec_height()
    &&& child.colour_seq().len() == left.colour_seq().len()
    &&& forall|j: int|
        0 <= j < child.colour_seq().len() ==> (colour_mutated(
            left.colour_seq()[j].0,
            (#[trigger] child.colour_seq()[j]).0,
            rate,
        ) || colour_mutated(right.colour_seq()[j].0, child.colour_seq()[j].0, rate))
            && (colour_mutated(left.colour_seq()[j].1, child.colour_seq()[j].1, rate)
            || colour_mutated(right.colour_seq()[j].1, child.colour_seq()[j].1, rate))
    &&& (rate == 0 ==> (child.pos_seq() == left.pos_seq() || child.pos_seq()
        == right.pos_seq()))
    &&& ((forall|v: GridVertex|
        child.vert_in_grid(v) && is_border(v, child.spec_width(), child.spec_height())
            ==> #[trigger] child.spec_pos(v) == left.spec_pos(v)) || (forall|v: GridVertex|
        child.vert_in_grid(v) && is_border(v, child.spec_width(), child.spec_height())
            ==> #[trigger] child.spec_pos(v) == right.spec_pos(v)))
}

impl GridImage {
    /// Breeds two meshes of the same dimensions into a child: the shape
    /// table is taken wholesale from one parent at even odds; every cell
    /// colour is picked from either parent at even odds and
    /// colour-mutated; then one Bernoulli trial per lattice vertex applies
    /// a structural mutation to a fresh random interior vertex.  Meshes
    /// too small to have an interior vertex skip the structural trials.
    pub fn breed(left: &GridImage, right: &GridImage, mutation_rate: u32) -> (r: GridImage)
        requires
            left.wf(),
            right.wf(),
            left.spec_width() == right.spec_width(),
            left.spec_height() == right.spec_height(),
            mutation_rate <= MUTATION_RATE_SCALE,
        ensures
            breed_post(*left, *right, mutation_rate, r),
    {
        let base = if rand_below(2) == 0 {
            left
        } else {
            right
        };
        let mut positions: Vec<Point> = Vec::new();
        let src = &base.positions;
        let mut i: usize = 0;
        while i < src.len()
            invariant
                i <= src@.len(),
                positions@.len() == i,
                forall|k: int| 0 <= k < i ==> positions@[k] == src@[k],
            decreases src@.len() - i,
        {
            positions.push(src[i]);
            i = i + 1;
        }
        proof {
            assert(positions@ =~= src@);
        }
        let n = left.colours.len();
        let mut colours: Vec<(Colour, Colour)> = Vec::new();
        let mut j: usize = 0;
        while j < n
            invariant
                j <= n,
                n == left.colour_seq().len(),
                n == right.colour_seq().len(),
                mutation_rate <= MUTATION_RATE_SCALE,
                colours@.len() == j,
                forall|k: int|
                    0 <= k < j ==> (colour_mutated(
                        left.colour_seq()[k].0,
                        (#[trigger] colours@[k]).0,
                        mutation_rate,
                    ) || colour_mutated(right.colour_seq()[k].0, colours@[k].0, mutation_rate))
                        && (colour_mutated(left.colour_seq()[k].1, colours@[k].1, mutation_rate)
                        || colour_mutated(right.colour_seq()[k].1, colours@[k].1, mutation_rate)),
            decreases n - j,
        {
            let lc = left.colours[j];
            let rc = right.colours[j];
            let c0 = mutate_colour(
                if rand_below(2) == 0 {
                    lc.0
                } else {
                    rc.0
                },
                mutation_rate,
            );
            let c1 = mutate_colour(
                if rand_below(2) == 0 {
                    lc.1
                } else {
                    rc.1
                },
                mutation_rate,
            );
            colours.push((c0, c1));
            j = j + 1;
        }
        let mut child = GridImage {
            width: left.width,
            height: left.height,
            positions,
            colours,
        };
        let ghost base_snapshot = *base;
        // One Bernoulli trial per lattice vertex; a mesh with no interior
        // vertex has nowhere to move one and skips the trials.
        if child.width >= 3 && child.height >= 3 {
            let trials = child.positions.len();
            let mut t: usize = 0;
            while t < trials
                invariant
                    child.wf(),
                    mutation_rate <= MUTATION_RATE_SCALE,
                    3 <= child.spec_width(),
                    3 <= child.spec_height(),
                    child.spec_width() == base_snapshot.spec_width(),
                    child.spec_height() == base_snapshot.spec_height(),
                    child.colour_seq().len() == left.colour_seq().len(),
                    forall|k: int|
                        0 <= k < child.colour_seq().len() ==> (colour_mutated(
                            left.colour_seq()[k].0,
                            (#[trigger] child.colour_seq()[k]).0,
                            mutation_rate,
                        ) || colour_mutated(
                            right.colour_seq()[k].0,
                            child.colour_seq()[k].0,
                            mutation_rate,
                        )) && (colour_mutated(
                            left.colour_seq()[k].1,
                            child.colour_seq()[k].1,
                            mutation_rate,
                        ) || colour_mutated(
                            right.colour_seq()[k].1,
                            child.colour_seq()[k].1,
                            mutation_rate,
                        )),
                    mutation_rate == 0 ==> child.pos_seq() == base_snapshot.pos_seq(),
                    forall|v: GridVertex|
                        child.vert_in_grid(v) && is_border(
                            v,
                            child.spec_width(),
                            child.spec_height(),
                        ) ==> #[trigger] child.spec_pos(v) == base_snapshot.spec_pos(v),
                decreases trials - t,
            {
                if rand_below(MUTATION_RATE_SCALE as u64) < mutation_rate as u64 {
                    let vert = child.get_random_inner_vertex();
                    let ghost before = child;
                    child.mutate_structure(&vert, None);
                    proof {
                        assert forall|v: GridVertex|
                            child.vert_in_grid(v) && is_border(
                                v,
                                child.spec_width(),
                                child.spec_height(),
                            ) implies #[trigger] child.spec_pos(v) == base_snapshot.spec_pos(
                            v,
                        ) by {
                            lemma_grid_index_injective(
                                child.spec_width(),
                                child.spec_height(),
                                v,
                                vert,
                            );
                            crate::grid::lemma_grid_index(
                                child.spec_width(),
                                child.spec_height(),
                                v.horizontal as int,
                                v.vertical as int,
                            );
                            crate::grid::lemma_grid_index(
                                child.spec_width(),
                                child.spec_height(),
                                vert.horizontal as int,
                                vert.vertical as int,
                            );
                            assert(v != vert);
                            assert(before.spec_index(v) != before.spec_index(vert));
                            assert(0 <= before.spec_index(v) < before.pos_seq().len());
                            assert(child.pos_seq() == before.pos_seq().update(
                                before.spec_index(vert),
                                child.spec_pos(vert),
                            ));
                            assert(child.pos_seq()[before.spec_index(v)]
                                == before.pos_seq()[before.spec_index(v)]);
                            assert(child.spec_pos(v) == before.spec_pos(v));
                        }
                    }
                }
                t = t + 1;
            }
        }
        child
    }
}

/// Breeding two meshes of equal shape and colours at rate zero gives a
/// child with exactly that shape and those colours.
pub proof fn lemma_breed_identity(left: GridImage, right: GridImage, child: GridImage)
    requires
        left.wf(),
        left.spec_width() == right.spec_width(),
        left.spec_height() == right.spec_height(),
        left.pos_seq() == right.pos_seq(),
        left.colour_seq() == right.colour_seq(),
        breed_post(left, right, 0, child),
    ensures
        child.pos_seq() == left.pos_seq(),
        child.colour_seq() == left.colour_seq(),
{
    assert forall|j: int|
        0 <= j < child.colour_seq().len() implies #[trigger] child.colour_seq()[j]
        == left.colour_seq()[j] by {
        assert(colour_mutated(left.colour_seq()[j].0, child.colour_seq()[j].0, 0)
            || colour_mutated(right.colour_seq()[j].0, child.colour_seq()[j].0, 0));
        assert(colour_mutated(left.colour_seq()[j].1, child.colour_seq()[j].1, 0)
            || colour_mutated(right.colour_seq()[j].1, child.colour_seq()[j].1, 0));
    }
    assert(child.colour_seq() =~= left.colour_seq());
}

} // verus!
