//! The generational reset: survivor selection, resampling with replacement,
//! and the metrics of the new generation.
use vstd::prelude::*;

use crate::codec::genome_bytes;
use crate::diversity::DiversitySet;
use crate::genome::NeuralNetwork;
use crate::random::random_below;

verus! {

/// Agents along the x axis of the spawn grid.
pub const BLOBS_X_N: usize = 10;

/// Agents along the y axis of the spawn grid.
pub const BLOBS_Y_N: usize = 10;

/// Agents along the z axis of the spawn grid.
pub const BLOBS_Z_N: usize = 10;

/// Target population size: one agent per grid cell.
pub const POPULATION_N: usize = BLOBS_X_N * BLOBS_Y_N * BLOBS_Z_N;

/// What a reset records for display until the next one.
#[derive(Clone, Copy, Debug, PartialEq, Eq, Structural)]
pub struct GenerationMetrics {
    /// Agents that stood in the safe zone when the reset fired.
    pub survived: usize,
    /// Distinct genome encodings in the new population.
    pub diversity: usize,
}

/// A resampled population and its metrics.
#[derive(Debug)]
pub struct Generation {
    pub population: Vec<NeuralNetwork>,
    pub metrics: GenerationMetrics,
}

/// Why a reset could not repopulate.
#[derive(Clone, Copy, Debug, PartialEq, Eq, Structural)]
pub enum ResetError {
    /// No agent stood in the safe zone, so there is no genome to draw from.
    Extinction,
}

/// The genomes of the agents marked as inside the safe zone, in order.
pub open spec fn survivors(snapshot: Seq<(NeuralNetwork, bool)>) -> Seq<NeuralNetwork>
    decreases snapshot.len(),
{
    if snapshot.len() == 0 {
        Seq::empty()
    } else if snapshot.last().1 {
        survivors(snapshot.drop_last()).push(snapshot.last().0)
    } else {
        survivors(snapshot.drop_last())
    }
}

/// The encodings of a population's genomes.
pub open spec fn encodings(population: Seq<NeuralNetwork>) -> Seq<Seq<u8>> {
    population.map_values(|g: NeuralNetwork| genome_bytes(g))
}

/// The number of distinct genome encodings in a population.
pub open spec fn distinct_encodings(population: Seq<NeuralNetwork>) -> nat {
    encodings(population).to_set().len()
}

/// The grid cell `(x, y, z)` of the `i`-th spawned agent.
pub fn grid_cell(i: usize) -> (r: (usize, usize, usize))
    ensures
        r.0 == i % BLOBS_X_N,
        r.1 == i as int / (BLOBS_X_N * BLOBS_Z_N) as int,
        r.2 == (i / BLOBS_X_N) % BLOBS_Z_N,
{
    (i % BLOBS_X_N, i / (BLOBS_X_N * BLOBS_Z_N), (i / BLOBS_X_N) % BLOBS_Z_N)
}

/// The gene pool: the genomes of the agents marked as inside the safe zone.
pub fn select_survivors(snapshot: &Vec<(NeuralNetwork, bool)>) -> (pool: Vec<NeuralNetwork>)
    ensures
        pool@ == survivors(snapshot@),
{
    let mut pool: Vec<NeuralNetwork> = Vec::new();
    let mut i: usize = 0;
    while i < snapshot.len()
        invariant
            i <= snapshot@.len(),
            pool@ == survivors(snapshot@.take(i as int)),
        decreases snapshot@.len() - i,
    {
        let (genome, safe) = snapshot[i];
        assert(snapshot@.take(i + 1).drop_last() =~= snapshot@.take(i as int));
        if safe {
            pool.push(genome);
        }
        i += 1;
    }
    assert(snapshot@.take(snapshot@.len() as int) =~= snapshot@);
    pool
}

/// The number of distinct genome encodings in `population`.
pub fn diversity(population: &Vec<NeuralNetwork>) -> (r: usize)
    ensures
        r == distinct_encodings(population@),
{
    let mut seen = DiversitySet::new();
    let mut i: usize = 0;
    while i < population.len()
        invariant
            i <= population@.len(),
            seen@ == encodings(population@.take(i as int)).to_set(),
        decreases population@.len() - i,
    {
        let bytes = population[i].all_bytes();
        seen.insert(bytes);
        proof {
            let before = encodings(population@.take(i as int));
            assert(encodings(population@.take(i + 1)) =~= before.push(bytes@));
            before.lemma_push_to_set_commute(bytes@);
        }
        i += 1;
    }
    assert(population@.take(population@.len() as int) =~= population@);
    seen.len()
}

/// The genomes of `pool` at the positions given by `draws`, in order.
pub fn resample_with(pool: &Vec<NeuralNetwork>, draws: &Vec<usize>) -> (r: Vec<NeuralNetwork>)
    requires
        forall|i: int| 0 <= i < draws@.len() ==> #[trigger] draws@[i] < pool@.len(),
    ensures
        r@ == draws@.map_values(|d: usize| pool@[d as int]),
{
    let mut r: Vec<NeuralNetwork> = Vec::with_capacity(draws.len());
    let mut i: usize = 0;
    while i < draws.len()
        invariant
            i <= draws@.len(),
            forall|j: int| 0 <= j < draws@.len() ==> #[trigger] draws@[j] < pool@.len(),
            r@ == draws@.take(i as int).map_values(|d: usize| pool@[d as int]),
        decreases draws@.len() - i,
    {
        r.push(pool[draws[i]]);
        assert(draws@.take(i + 1).map_values(|d: usize| pool@[d as int]) =~= draws@.take(
            i as int,
        ).map_values(|d: usize| pool@[d as int]).push(pool@[draws@[i as int] as int]));
        i += 1;
    }
    assert(draws@.take(draws@.len() as int) =~= draws@);
    r
}

/// `n` positions drawn independently and uniformly from `0..bound`.
fn draw_indices(bound: usize, n: usize) -> (r: Vec<usize>)
    requires
        bound > 0,
    ensures
        r@.len() == n,
        forall|i: int| 0 <= i < n ==> #[trigger] r@[i] < bound,
{
    let mut r: Vec<usize> = Vec::with_capacity(n);
    let mut i: usize = 0;
    while i < n
        invariant
            i <= n,
            bound > 0,
            r@.len() == i,
            forall|j: int| 0 <= j < i ==> #[trigger] r@[j] < bound,
        decreases n - i,
    {
        r.push(random_below(bound));
        i += 1;
    }
    r
}

/// The generation drawn from `pool` at the positions given by `draws`.
pub fn next_generation(pool: &Vec<NeuralNetwork>, draws: &Vec<usize>) -> (g: Generation)
    requires
        forall|i: int| 0 <= i < draws@.len() ==> #[trigger] draws@[i] < pool@.len(),
    ensures
        g.population@ == draws@.map_values(|d: usize| pool@[d as int]),
        g.metrics.survived == pool@.len(),
        g.metrics.diversity == distinct_encodings(g.population@),
        g.metrics.diversity <= draws@.len(),
        g.metrics.diversity <= distinct_encodings(pool@),
{
    let population = resample_with(pool, draws);
    let diversity = diversity(&population);
    proof {
        lemma_drawn_diversity_bounds(pool@, population@);
    }
    Generation { population, metrics: GenerationMetrics { survived: pool.len(), diversity } }
}

/// Culls and resamples: every agent of `snapshot` is replaced, and `target`
/// new genomes are drawn uniformly with replacement from those of the agents
/// marked as inside the safe zone. With no such agent the reset fails with
/// `Extinction`.
pub fn reset_generation(snapshot: &Vec<(NeuralNetwork, bool)>, target: usize) -> (r: Result<
    Generation,
    ResetError,
>)
    ensures
        (r == Err::<Generation, ResetError>(ResetError::Extinction)) <==> survivors(
            snapshot@,
        ).len() == 0,
        r is Ok ==> {
            let g = r->Ok_0;
            &&& g.population@.len() == target
            &&& forall|i: int|
                0 <= i < target ==> survivors(snapshot@).contains(#[trigger] g.population@[i])
            &&& g.metrics.survived == survivors(snapshot@).len()
            &&& g.metrics.diversity == distinct_encodings(g.population@)
            &&& g.metrics.diversity <= target
            &&& g.metrics.diversity <= distinct_encodings(survivors(snapshot@))
        },
{
    let pool = select_survivors(snapshot);
    if pool.len() == 0 {
        return Err(ResetError::Extinction);
    }
    let draws = draw_indices(pool.len(), target);
    let g = next_generation(&pool, &draws);
    assert forall|i: int| 0 <= i < target implies survivors(snapshot@).contains(
        #[trigger] g.population@[i],
    ) by {
        assert(g.population@[i] == pool@[draws@[i] as int]);
    }
    Ok(g)
}

/// Each drawn genome's encoding is one of the pool's, so a population drawn
/// from `pool` has no more distinct encodings than the pool, nor than its own length.
proof fn lemma_drawn_diversity_bounds(pool: Seq<NeuralNetwork>, population: Seq<NeuralNetwork>)
    requires
        forall|i: int| 0 <= i < population.len() ==> pool.contains(#[trigger] population[i]),
    ensures
        distinct_encodings(population) <= population.len(),
        distinct_encodings(population) <= distinct_encodings(pool),
{
    broadcast use vstd::seq_lib::seq_to_set_is_finite;

    encodings(population).lemma_cardinality_of_set();
    assert(encodings(population).to_set().subset_of(encodings(pool).to_set())) by {
        assert forall|e: Seq<u8>| encodings(population).to_set().contains(e) implies encodings(
            pool,
        ).to_set().contains(e) by {
            let i = choose|i: int| 0 <= i < population.len() && encodings(population)[i] == e;
            let j = choose|j: int| 0 <= j < pool.len() && pool[j] == population[i];
            assert(encodings(pool)[j] == e);
        }
    }
    vstd::set_lib::lemma_len_subset(encodings(population).to_set(), encodings(pool).to_set());
}

} // verus!
