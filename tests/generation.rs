use blob_evolution::diversity::{bytes_equal, DiversitySet};
use blob_evolution::generation::{
    diversity, grid_cell, next_generation, reset_generation, resample_with, select_survivors,
    ResetError, POPULATION_N,
};
use blob_evolution::genome::{Connection, NeuralNetwork, Neuron};
use blob_evolution::CONNECTIONS_N;

fn genome(index: usize, weight: f32) -> NeuralNetwork {
    let c = Connection::new(Neuron::Input(index % 3), Neuron::Output(index % 3), weight.to_bits());
    NeuralNetwork { connections: [c; CONNECTIONS_N] }
}

#[test]
fn bytes_equal_compares_contents() {
    assert!(bytes_equal(&vec![], &vec![]));
    assert!(bytes_equal(&vec![1, 2, 3], &vec![1, 2, 3]));
    assert!(!bytes_equal(&vec![1, 2, 3], &vec![1, 2, 4]));
    assert!(!bytes_equal(&vec![1, 2], &vec![1, 2, 3]));
}

#[test]
fn diversity_set_collapses_duplicates() {
    let mut s = DiversitySet::new();
    assert_eq!(s.len(), 0);
    assert!(s.insert(vec![1, 2]));
    assert!(s.insert(vec![2, 1]));
    assert!(!s.insert(vec![1, 2]));
    assert!(s.insert(vec![]));
    assert!(!s.insert(vec![]));
    assert_eq!(s.len(), 3);
    assert!(s.contains(&vec![2, 1]));
    assert!(!s.contains(&vec![2]));
}

#[test]
fn diversity_set_size_ignores_insertion_order() {
    let keys = vec![vec![5u8], vec![1, 1], vec![5], vec![7], vec![1, 1], vec![5]];
    let mut forward = DiversitySet::new();
    for k in keys.iter() {
        forward.insert(k.clone());
    }
    let mut backward = DiversitySet::new();
    for k in keys.iter().rev() {
        backward.insert(k.clone());
    }
    assert_eq!(forward.len(), 3);
    assert_eq!(backward.len(), 3);
}

#[test]
fn diversity_counts_distinct_genomes() {
    let a = genome(0, 1.0);
    let b = genome(1, 1.0);
    let c = genome(0, 2.0);
    assert_eq!(diversity(&vec![]), 0);
    assert_eq!(diversity(&vec![a, a, a]), 1);
    assert_eq!(diversity(&vec![a, b, a, c, b]), 3);
}

#[test]
fn survivors_keep_order_and_skip_outsiders() {
    let a = genome(0, 1.0);
    let b = genome(1, 1.0);
    let c = genome(2, 1.0);
    let pool = select_survivors(&vec![(a, true), (b, false), (c, true), (a, false)]);
    assert_eq!(pool, vec![a, c]);
    assert!(select_survivors(&vec![]).is_empty());
}

#[test]
fn resample_takes_drawn_positions() {
    let a = genome(0, 1.0);
    let b = genome(1, 1.0);
    let pool = vec![a, b];
    assert_eq!(resample_with(&pool, &vec![1, 0, 1, 1]), vec![b, a, b, b]);
    assert!(resample_with(&pool, &vec![]).is_empty());
}

#[test]
fn next_generation_metrics() {
    let a = genome(0, 1.0);
    let b = genome(1, 1.0);
    let c = genome(2, 1.0);
    let g = next_generation(&vec![a, b, c], &vec![2, 2, 0, 2]);
    assert_eq!(g.population, vec![c, c, a, c]);
    assert_eq!(g.metrics.survived, 3);
    assert_eq!(g.metrics.diversity, 2);
}

#[test]
fn reset_without_survivors_is_extinction() {
    let a = genome(0, 1.0);
    let r = reset_generation(&vec![(a, false), (a, false)], 10);
    assert_eq!(r.unwrap_err(), ResetError::Extinction);
    let r = reset_generation(&vec![], POPULATION_N);
    assert_eq!(r.unwrap_err(), ResetError::Extinction);
}

#[test]
fn reset_from_single_genome_pool() {
    let a = genome(1, 3.0);
    let b = genome(2, -3.0);
    let g = reset_generation(&vec![(b, false), (a, true), (b, false)], 10).unwrap();
    assert_eq!(g.population.len(), 10);
    let first = g.population[0].all_bytes();
    for member in g.population.iter() {
        assert_eq!(member.all_bytes(), first);
        assert_eq!(*member, a);
    }
    assert_eq!(g.metrics.diversity, 1);
    assert_eq!(g.metrics.survived, 1);
}

#[test]
fn reset_invariants_on_mixed_population() {
    let a = genome(0, 1.0);
    let b = genome(1, 2.0);
    let c = genome(2, 3.0);
    let d = genome(0, 4.0);
    let snapshot = vec![(a, true), (b, true), (c, false), (a, true), (d, false), (b, true)];
    for _ in 0..20 {
        let g = reset_generation(&snapshot, POPULATION_N).unwrap();
        assert_eq!(g.population.len(), POPULATION_N);
        assert_eq!(g.metrics.survived, 4);
        assert!(g.metrics.diversity <= 2);
        assert!(g.metrics.diversity >= 1);
        for member in g.population.iter() {
            assert!(*member == a || *member == b);
        }
        assert_eq!(g.metrics.diversity, diversity(&g.population));
    }
}

#[test]
fn reset_to_empty_target() {
    let a = genome(0, 1.0);
    let g = reset_generation(&vec![(a, true)], 0).unwrap();
    assert!(g.population.is_empty());
    assert_eq!(g.metrics.survived, 1);
    assert_eq!(g.metrics.diversity, 0);
}

#[test]
fn reset_draws_stay_within_pool() {
    let pool: Vec<(NeuralNetwork, bool)> = (0..3).map(|i| (genome(i, i as f32), true)).collect();
    let g = reset_generation(&pool, 300).unwrap();
    for member in g.population.iter() {
        assert!(pool.iter().any(|(p, _)| p == member));
    }
    assert!(g.metrics.diversity <= 3);
}

#[test]
fn grid_cells_cover_the_grid() {
    assert_eq!(grid_cell(0), (0, 0, 0));
    assert_eq!(grid_cell(123), (3, 1, 2));
    assert_eq!(grid_cell(999), (9, 9, 9));
    assert_eq!(grid_cell(10), (0, 0, 1));
}
