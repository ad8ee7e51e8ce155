use mesh_evolve::member::Member;
use mesh_evolve::population::{mating_pool, normalised_weight, EvaluatedPopulation, Population};

/// A plain member with fixed fitness values and gene tracking; it leaves
/// the trait's spec defaults alone, so it promises nothing to the engine's
/// contracts and everything here is checked at run time.
#[derive(Clone)]
struct StubMember {
    value: u64,
    genes: Vec<u64>,
}

impl Member for StubMember {
    type FitnessMetadata = ();

    type BreedMetadata = ();

    fn fitness(&self, _metadata: &()) -> u64 {
        self.value
    }

    fn breed(left: &Self, right: &Self, _metadata: &()) -> Self {
        let mut genes = left.genes.clone();
        for g in &right.genes {
            if !genes.contains(g) {
                genes.push(*g);
            }
        }
        StubMember { value: (left.value + right.value) / 2, genes }
    }
}

fn stub(value: u64) -> StubMember {
    StubMember { value, genes: vec![value] }
}

#[test]
fn run_pairs_best_and_worst_with_their_own_fitness() {
    let population = Population::new(vec![stub(50), stub(90), stub(10)]);
    let evaluated = population.run(&());
    let (best, best_fitness) = evaluated.best();
    assert_eq!(best_fitness, 90);
    assert_eq!(best.value, 90);
    assert_eq!(best.genes, vec![90]);
    let (worst, worst_fitness) = evaluated.worst();
    assert_eq!(worst_fitness, 10);
    assert_eq!(worst.value, 10);
    assert_eq!(worst.genes, vec![10]);
}

#[test]
fn run_keeps_every_member() {
    let population = Population::new(vec![stub(5), stub(3), stub(9), stub(7)]);
    let evaluated = population.run(&());
    let mut values: Vec<u64> = evaluated.member_fitness.iter().map(|p| p.1).collect();
    assert_eq!(values, vec![3, 5, 7, 9]);
    values = evaluated.member_fitness.iter().map(|p| p.0.value).collect();
    assert_eq!(values, vec![3, 5, 7, 9]);
}

#[test]
fn normalised_weight_exact_values() {
    // The worst member of a spread population weighs the full 64 copies.
    assert_eq!(normalised_weight(10, 90, 10), 64);
    // The member tied with the best weighs a single copy.
    assert_eq!(normalised_weight(90, 90, 10), 1);
    // Halfway: round(1 + (50 - 90) * 9 / 80) = round(-3.5) squares to 16.
    assert_eq!(normalised_weight(50, 90, 10), 16);
    // A flat population weighs everyone the same.
    assert_eq!(normalised_weight(5, 5, 5), 1);
}

#[test]
fn mating_pool_repeats_by_weight_and_excludes_best() {
    let fits = vec![10u64, 50, 90];
    let pool = mating_pool(&fits);
    assert_eq!(pool.len(), 80);
    assert_eq!(pool.iter().filter(|&&i| i == 0).count(), 64);
    assert_eq!(pool.iter().filter(|&&i| i == 1).count(), 16);
    assert!(!pool.contains(&2));
}

#[test]
fn mating_pool_flat_population_is_uniform() {
    let fits = vec![7u64, 7, 7, 7];
    let pool = mating_pool(&fits);
    assert_eq!(pool, vec![0, 1, 2]);
}

#[test]
fn every_child_descends_from_the_elite_and_a_non_elite() {
    // One member far above the rest: its gene must reach every child,
    // and some non-elite gene must come through as well.
    let population = Population::new(vec![stub(1000), stub(1), stub(2), stub(3)]);
    let evaluated = population.run(&());
    let next = evaluated.breed(&());
    assert_eq!(next.members.len(), 4);
    for child in &next.members {
        assert!(child.genes.contains(&1000));
        assert!(child.genes.iter().any(|g| *g != 1000));
    }
}

#[test]
fn generations_mix_genes_within_hundred_rounds() {
    let mut population = Population::new(vec![stub(1000), stub(1), stub(2), stub(3)]);
    let mut evaluated: EvaluatedPopulation<StubMember>;
    let mut saw_non_elite = false;
    for _ in 0..100 {
        evaluated = population.run(&());
        let (best, _f) = evaluated.best();
        if best.genes.iter().any(|g| *g != 1000) {
            saw_non_elite = true;
        }
        population = evaluated.breed(&());
        assert_eq!(population.members.len(), 4);
    }
    assert!(saw_non_elite);
}
