use vstd::prelude::*;

verus! {

use crate::member::Member;
use crate::rng::rand_below;
use vstd::multiset::Multiset;

/// The members of one pair sequence, without their fitness values.
pub open spec fn members_of<M>(s: Seq<(M, u64)>) -> Seq<M> {
    s.map_values(|p: (M, u64)| p.0)
}

/// An empty sequence holds the empty multiset.
proof fn lemma_to_multiset_empty<A>(s: Seq<A>)
    requires
        s.len() == 0,
    ensures
        s.to_multiset() =~= Multiset::<A>::empty(),
{
    broadcast use vstd::multiset::group_multiset_axioms;

    s.to_multiset_ensures();
    assert forall|a: A| s.to_multiset().count(a) == 0 by {
        if s.to_multiset().count(a) > 0 {
            assert(s.contains(a));
        }
    }
}

/// Pairs ordered by ascending fitness: the worst member first, the best
/// last.
pub open spec fn sorted_by_fitness<M>(s: Seq<(M, u64)>) -> bool {
    forall|i: int, j: int| 0 <= i <= j < s.len() ==> (#[trigger] s[i]).1 <= (#[trigger] s[j]).1
}

/// An un-evaluated population: at least two members of one evolvable
/// type, with no fitness attached yet.
pub struct Population<M: Member + Clone> {
    pub members: Vec<M>,
}

/// An evaluated population: every member paired with its fitness, sorted
/// ascending — the worst member at the front, the best at the back.  The
/// only form breeding may start from.
pub struct EvaluatedPopulation<M: Member + Clone> {
    pub member_fitness: Vec<(M, u64)>,
}

impl<M: Member + Clone> Population<M> {
    pub open spec fn wf(&self) -> bool {
        self.members@.len() >= 2
    }

    /// Gathers the initial members; a population needs at least two.
    pub fn new(initial: Vec<M>) -> (r: Population<M>)
        requires
            initial@.len() >= 2,
        ensures
            r.wf(),
            r.members == initial,
    {
        Population { members: initial }
    }

    /// Evaluates every member exactly once against the metadata and sorts
    /// the pairs by ascending fitness.  The members come through as a
    /// permutation: the same multiset before and after; and for member
    /// types that promise a fitness spec, every member is paired with its
    /// own score.
    pub fn run(self, metadata: &M::FitnessMetadata) -> (r: EvaluatedPopulation<M>)
        requires
            self.wf(),
        ensures
            r.wf(),
            r.member_fitness@.len() == self.members@.len(),
            members_of(r.member_fitness@).to_multiset() == self.members@.to_multiset(),
            M::obeys_member_spec() ==> forall|i: int|
                0 <= i < r.member_fitness@.len() ==> (#[trigger] r.member_fitness@[i]).1
                    == r.member_fitness@[i].0.spec_fitness(metadata),
    {
        let ghost orig = self.members@;
        let mut source = self.members;
        let mut pairs: Vec<(M, u64)> = Vec::new();
        proof {
            broadcast use vstd::multiset::group_multiset_axioms;

            orig.to_multiset_ensures();
            assert(members_of(pairs@) =~= Seq::<M>::empty());
            Seq::<M>::empty().to_multiset_ensures();
            assert(members_of(pairs@).to_multiset().add(source@.to_multiset())
                =~= orig.to_multiset());
        }
        while source.len() > 0
            invariant
                members_of(pairs@).to_multiset().add(source@.to_multiset())
                    == orig.to_multiset(),
                pairs@.len() + source@.len() == orig.len(),
                M::obeys_member_spec() ==> forall|i: int|
                    0 <= i < pairs@.len() ==> (#[trigger] pairs@[i]).1
                        == pairs@[i].0.spec_fitness(metadata),
            decreases source@.len(),
        {
            let ghost src_before = source@;
            let ghost pairs_before = pairs@;
            let m = source.pop().unwrap();
            let f = m.fitness(metadata);
            pairs.push((m, f));
            proof {
                broadcast use vstd::multiset::group_multiset_axioms;

                src_before.to_multiset_ensures();
                assert(source@ =~= src_before.remove(src_before.len() - 1));
                members_of(pairs_before).to_multiset_ensures();
                assert(members_of(pairs@) =~= members_of(pairs_before).push(m));
                assert(members_of(pairs@).to_multiset().add(source@.to_multiset())
                    =~= orig.to_multiset());
            }
        }
        proof {
            broadcast use vstd::multiset::group_multiset_axioms;

            lemma_to_multiset_empty(source@);
            assert(members_of(pairs@).to_multiset().add(source@.to_multiset())
                =~= members_of(pairs@).to_multiset());
        }
        let ghost pairs_view = pairs@;
        let sorted = sort_pairs_by_fitness(pairs);
        proof {
            if M::obeys_member_spec() {
                broadcast use vstd::multiset::group_multiset_axioms;

                sorted@.to_multiset_ensures();
                pairs_view.to_multiset_ensures();
                assert forall|i: int|
                    0 <= i < sorted@.len() implies (#[trigger] sorted@[i]).1
                    == sorted@[i].0.spec_fitness(metadata) by {
                    assert(sorted@.contains(sorted@[i]));
                    assert(pairs_view.to_multiset().count(sorted@[i]) > 0);
                    assert(pairs_view.contains(sorted@[i]));
                    let j = choose|j: int| 0 <= j < pairs_view.len() && pairs_view[j] == sorted@[i];
                    assert(pairs_view[j].1 == pairs_view[j].0.spec_fitness(metadata));
                }
            }
        }
        EvaluatedPopulation { member_fitness: sorted }
    }
}

/// Sorts member-fitness pairs by ascending fitness, by repeatedly
/// extracting a pair of least fitness.  The pairs come through as a
/// permutation of the input.
fn sort_pairs_by_fitness<M: Member + Clone>(pairs: Vec<(M, u64)>) -> (r: Vec<(M, u64)>)
    ensures
        r@.len() == pairs@.len(),
        sorted_by_fitness(r@),
        r@.to_multiset() == pairs@.to_multiset(),
        members_of(r@).to_multiset() == members_of(pairs@).to_multiset(),
{
    let ghost orig = pairs@;
    let mut source = pairs;
    let mut out: Vec<(M, u64)> = Vec::new();
    proof {
        broadcast use vstd::multiset::group_multiset_axioms;

        assert(members_of(out@) =~= Seq::<M>::empty());
        Seq::<M>::empty().to_multiset_ensures();
        Seq::<(M, u64)>::empty().to_multiset_ensures();
        assert(members_of(out@).to_multiset().add(members_of(source@).to_multiset())
            =~= members_of(orig).to_multiset());
        assert(out@.to_multiset().add(source@.to_multiset()) =~= orig.to_multiset());
    }
    while source.len() > 0
        invariant
            out@.len() + source@.len() == orig.len(),
            sorted_by_fitness(out@),
            forall|i: int, j: int|
                0 <= i < out@.len() && 0 <= j < source@.len() ==> (#[trigger] out@[i]).1
                    <= (#[trigger] source@[j]).1,
            members_of(out@).to_multiset().add(members_of(source@).to_multiset())
                == members_of(orig).to_multiset(),
            out@.to_multiset().add(source@.to_multiset()) == orig.to_multiset(),
        decreases source@.len(),
    {
        // Find a pair of least fitness among the remaining ones.
        let mut best: usize = 0;
        let mut scan: usize = 1;
        while scan < source.len()
            invariant
                source@.len() > 0,
                best < source@.len(),
                scan <= source@.len(),
                forall|j: int| 0 <= j < scan ==> (#[trigger] source@[j]).1 >= source@[best as int].1,
            decreases source@.len() - scan,
        {
            if source[scan].1 < source[best].1 {
                best = scan;
            }
            scan = scan + 1;
        }
        let ghost src_before = source@;
        let ghost out_before = out@;
        let picked = source.remove(best);
        out.push(picked);
        proof {
            broadcast use vstd::multiset::group_multiset_axioms;

            members_of(src_before).to_multiset_ensures();
            assert(members_of(source@) =~= members_of(src_before).remove(best as int));
            members_of(out_before).to_multiset_ensures();
            assert(members_of(out@) =~= members_of(out_before).push(picked.0));
            assert(members_of(src_before)[best as int] == picked.0);
            assert(members_of(out@).to_multiset().add(members_of(source@).to_multiset())
                =~= members_of(orig).to_multiset());
            src_before.to_multiset_ensures();
            out_before.to_multiset_ensures();
            assert(source@ =~= src_before.remove(best as int));
            assert(out@ =~= out_before.push(picked));
            assert(src_before[best as int] == picked);
            assert(out@.to_multiset().add(source@.to_multiset()) =~= orig.to_multiset());
            assert forall|i: int, j: int|
                0 <= i < out@.len() && 0 <= j < source@.len() implies (#[trigger] out@[i]).1
                <= (#[trigger] source@[j]).1 by {
                if i < out_before.len() {
                    assert(out@[i] == out_before[i]);
                }
                if j < best {
                    assert(source@[j] == src_before[j]);
                } else {
                    assert(source@[j] == src_before[j + 1]);
                }
            }
        }
    }
    proof {
        broadcast use vstd::multiset::group_multiset_axioms;

        lemma_to_multiset_empty(members_of(source@));
        assert(members_of(out@).to_multiset().add(members_of(source@).to_multiset())
            =~= members_of(out@).to_multiset());
        lemma_to_multiset_empty(source@);
        assert(out@.to_multiset().add(source@.to_multiset()) =~= out@.to_multiset());
    }
    out
}

/// The weight a member's fitness earns in the mating pool: the square of
/// its normalised rank, `round(1 + (fitness - best) * 9 / (best -
/// worst))`; a flat population weighs every member the same.
pub open spec fn norm_weight(fitness: int, best: int, worst: int) -> int {
    if best == worst {
        1
    } else {
        let q = (18 * (best - fitness) + (best - worst)) / (2 * (best - worst));
        (q - 1) * (q - 1)
    }
}

/// Computes a member's mating-pool weight; it never exceeds 64 copies.
pub fn normalised_weight(fitness: u64, best: u64, worst: u64) -> (r: u64)
    requires
        worst <= fitness <= best,
    ensures
        r == norm_weight(fitness as int, best as int, worst as int),
        r <= 64,
        best == worst ==> r == 1,
{
    if best == worst {
        return 1;
    }
    let d = (best - fitness) as u128;
    let range = (best - worst) as u128;
    proof {
        lemma_norm_quotient(d as int, range as int);
    }
    let q = (18 * d + range) / (2 * range);
    let qm = if q >= 1 {
        q - 1
    } else {
        1 - q
    };
    proof {
        assert(qm as int * qm as int == (q as int - 1) * (q as int - 1) && qm as int * qm as int
            <= 64) by (nonlinear_arith)
            requires
                0 <= q <= 9,
                qm as int == (if q as int >= 1 {
                    q as int - 1
                } else {
                    1 - q as int
                }),
        ;
    }
    (qm * qm) as u64
}

/// The rounded rank quotient stays between 0 and 9 when the distance to
/// the best does not exceed the range.
proof fn lemma_norm_quotient(d: int, range: int)
    by (nonlinear_arith)
    requires
        0 <= d <= range,
        1 <= range,
    ensures
        0 <= (18 * d + range) / (2 * range) <= 9,
{
}

/// The worst member of a spread population weighs the full 64 copies, so
/// the pool is never empty.
pub proof fn lemma_norm_weight_worst(best: int, worst: int)
    by (nonlinear_arith)
    requires
        worst < best,
    ensures
        norm_weight(worst, best, worst) == 64,
{
}

/// The mating pool drawn from the fitness values of a sorted, evaluated
/// population: each member except the best appears as many times as its
/// normalised weight says.
pub open spec fn pool_of(fits: Seq<u64>, n: int) -> Seq<usize>
    decreases n,
{
    if n <= 0 {
        Seq::empty()
    } else {
        pool_of(fits, n - 1) + Seq::new(
            norm_weight(fits[n - 1] as int, fits[fits.len() - 1] as int, fits[0] as int) as nat,
            |i: int| (n - 1) as usize,
        )
    }
}

proof fn lemma_pool_of_entries(fits: Seq<u64>, n: int)
    requires
        0 <= n < fits.len(),
    ensures
        forall|i: int| 0 <= i < pool_of(fits, n).len() ==> 0 <= #[trigger] pool_of(fits, n)[i] < n,
    decreases n,
{
    if n > 0 {
        lemma_pool_of_entries(fits, n - 1);
        let prev = pool_of(fits, n - 1);
        let blk = Seq::new(
            norm_weight(fits[n - 1] as int, fits[fits.len() - 1] as int, fits[0] as int) as nat,
            |i: int| (n - 1) as usize,
        );
        assert forall|i: int|
            0 <= i < pool_of(fits, n).len() implies 0 <= #[trigger] pool_of(fits, n)[i]
            < n by {
            if i < prev.len() {
                assert(pool_of(fits, n)[i] == prev[i]);
            } else {
                assert(pool_of(fits, n)[i] == blk[i - prev.len()]);
            }
        }
    }
}

/// Builds the mating pool for sorted fitness values: every member but the
/// best, each repeated by the square of its normalised rank.  The pool is
/// never empty and never contains the best member's index.
pub fn mating_pool(fits: &Vec<u64>) -> (r: Vec<usize>)
    requires
        fits@.len() >= 2,
        forall|i: int, j: int|
            0 <= i <= j < fits@.len() ==> (#[trigger] fits@[i]) <= (#[trigger] fits@[j]),
    ensures
        r@ == pool_of(fits@, fits@.len() - 1),
        r@.len() >= 1,
        forall|i: int| 0 <= i < r@.len() ==> 0 <= #[trigger] r@[i] < fits@.len() - 1,
{
    let n = fits.len();
    let best = fits[n - 1];
    let worst = fits[0];
    let mut pool: Vec<usize> = Vec::new();
    let mut idx: usize = 0;
    proof {
        assert(pool@ =~= pool_of(fits@, 0));
    }
    while idx < n - 1
        invariant
            n == fits@.len(),
            n >= 2,
            best == fits@[n - 1],
            worst == fits@[0],
            forall|i: int, j: int|
                0 <= i <= j < fits@.len() ==> (#[trigger] fits@[i]) <= (#[trigger] fits@[j]),
            idx <= n - 1,
            pool@ == pool_of(fits@, idx as int),
        decreases n - idx,
    {
        let w = normalised_weight(fits[idx], best, worst);
        let ghost before = pool@;
        let mut c: u64 = 0;
        while c < w
            invariant
                c <= w,
                pool@ == before + Seq::new(c as nat, |i: int| idx),
            decreases w - c,
        {
            let ghost mid = pool@;
            pool.push(idx);
            proof {
                assert(pool@ =~= before + Seq::new(c as nat + 1, |i: int| idx));
            }
            c = c + 1;
        }
        proof {
            assert(pool@ =~= pool_of(fits@, idx as int + 1));
        }
        idx = idx + 1;
    }
    proof {
        if pool@.len() == 0 {
            if fits@[n - 1] == fits@[0] {
                assert(pool_of(fits@, 1).len() >= 1);
            } else {
                assert(fits@[0] <= fits@[n - 1]);
                lemma_norm_weight_worst(fits@[n - 1] as int, fits@[0] as int);
                assert(pool_of(fits@, 1).len() >= 64);
            }
            lemma_pool_of_len_mono(fits@, 1, n as int - 1);
            assert(false);
        }
        lemma_pool_of_entries(fits@, n as int - 1);
    }
    pool
}

/// The pool only grows as more members are taken in.
proof fn lemma_pool_of_len_mono(fits: Seq<u64>, a: int, b: int)
    requires
        0 <= a <= b,
    ensures
        pool_of(fits, a).len() <= pool_of(fits, b).len(),
    decreases b - a,
{
    if a < b {
        lemma_pool_of_len_mono(fits, a, b - 1);
    }
}

impl<M: Member + Clone> EvaluatedPopulation<M> {
    pub open spec fn wf(&self) -> bool {
        self.member_fitness@.len() >= 2 && sorted_by_fitness(self.member_fitness@)
    }

    /// The best member of the population, with its fitness: the last pair
    /// of the sorted table.
    pub fn best(&self) -> (r: (&M, u64))
        requires
            self.wf(),
        ensures
            *r.0 == self.member_fitness@.last().0,
            r.1 == self.member_fitness@.last().1,
    {
        let n = self.member_fitness.len();
        (&self.member_fitness[n - 1].0, self.member_fitness[n - 1].1)
    }

    /// The worst member of the population, with its fitness: the first
    /// pair of the sorted table.
    pub fn worst(&self) -> (r: (&M, u64))
        requires
            self.wf(),
        ensures
            *r.0 == self.member_fitness@[0].0,
            r.1 == self.member_fitness@[0].1,
    {
        (&self.member_fitness[0].0, self.member_fitness[0].1)
    }

    /// Breeds the next generation: every child pairs the single best
    /// member with a random draw from the mating pool of the others, so
    /// each child has the best member as one parent and never the best as
    /// the other — stated below for member types that promise a breeding
    /// spec.
    pub fn breed(self, metadata: &M::BreedMetadata) -> (r: Population<M>)
        requires
            self.wf(),
        ensures
            r.wf(),
            r.members@.len() == self.member_fitness@.len(),
            M::obeys_member_spec() ==> forall|j: int|
                #![trigger r.members@[j]]
                0 <= j < r.members@.len() ==> exists|p: int|
                    0 <= p < self.member_fitness@.len() - 1 && M::breed_ok(
                        &self.member_fitness@[self.member_fitness@.len() - 1].0,
                        &(#[trigger] self.member_fitness@[p]).0,
                        metadata,
                        &r.members@[j],
                    ),
    {
        let n = self.member_fitness.len();
        let mut fits: Vec<u64> = Vec::new();
        let mut i: usize = 0;
        while i < n
            invariant
                n == self.member_fitness@.len(),
                sorted_by_fitness(self.member_fitness@),
                i <= n,
                fits@.len() == i,
                forall|j: int| 0 <= j < i ==> #[trigger] fits@[j] == self.member_fitness@[j].1,
            decreases n - i,
        {
            fits.push(self.member_fitness[i].1);
            i = i + 1;
        }
        let pool = mating_pool(&fits);
        let mut children: Vec<M> = Vec::new();
        let mut c: usize = 0;
        while c < n
            invariant
                n == self.member_fitness@.len(),
                n >= 2,
                pool@.len() >= 1,
                forall|j: int| 0 <= j < pool@.len() ==> 0 <= #[trigger] pool@[j] < n - 1,
                c <= n,
                children@.len() == c,
                M::obeys_member_spec() ==> forall|j: int|
                    #![trigger children@[j]]
                    0 <= j < children@.len() ==> exists|p: int|
                        0 <= p < n - 1 && M::breed_ok(
                            &self.member_fitness@[n - 1].0,
                            &(#[trigger] self.member_fitness@[p]).0,
                            metadata,
                            &children@[j],
                        ),
            decreases n - c,
        {
            let draw = rand_below(pool.len() as u64) as usize;
            let pick = pool[draw];
            let child = M::breed(
                &self.member_fitness[n - 1].0,
                &self.member_fitness[pick].0,
                metadata,
            );
            let ghost prev = children@;
            children.push(child);
            proof {
                if M::obeys_member_spec() {
                    assert(children@[children@.len() - 1] == child);
                    assert(0 <= pick < n - 1 && M::breed_ok(
                        &self.member_fitness@[n - 1].0,
                        &self.member_fitness@[pick as int].0,
                        metadata,
                        &children@[children@.len() - 1],
                    ));
                    assert forall|j: int|
                        #![trigger children@[j]]
                        0 <= j < children@.len() implies exists|p: int|
                        0 <= p < n - 1 && M::breed_ok(
                            &self.member_fitness@[n - 1].0,
                            &(#[trigger] self.member_fitness@[p]).0,
                            metadata,
                            &children@[j],
                        ) by {
                        if j < prev.len() {
                            assert(children@[j] == prev[j]);
                            let p = choose|p: int|
                                0 <= p < n - 1 && M::breed_ok(
                                    &self.member_fitness@[n - 1].0,
                                    &(#[trigger] self.member_fitness@[p]).0,
                                    metadata,
                                    &prev[j],
                                );
                            assert(M::breed_ok(
                                &self.member_fitness@[n - 1].0,
                                &self.member_fitness@[p].0,
                                metadata,
                                &children@[j],
                            ));
                        }
                    }
                }
            }
            c = c + 1;
        }
        Population { members: children }
    }
}

} // verus!
