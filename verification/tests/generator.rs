use ntt_bench::generator::{
    assemble_points, generate_points_scalars, generate_points_scalars_cond, CountingSampler,
    CurveSampler, IDENTITY_INDEX, POOL_CAP,
};
use rand::{RngCore, SeedableRng};
use rand_chacha::ChaCha20Rng;

#[test]
fn scalar_sequence_always_has_the_requested_length() {
    let sampler = CountingSampler;
    for n in [0usize, 1, 3, 4, 100, 2048, 2049, 5000] {
        let (_, scalars) = generate_points_scalars(&sampler, n);
        assert_eq!(scalars.len(), n);
        let (_, scalars) = generate_points_scalars_cond(&sampler, n, false);
        assert_eq!(scalars.len(), n);
    }
}

#[test]
fn point_sequence_has_the_requested_length() {
    let sampler = CountingSampler;
    for n in [0usize, 1, 3, 4, 100, 2048, 2049, 5000] {
        let (points, _) = generate_points_scalars(&sampler, n);
        assert_eq!(points.len(), n);
    }
}

#[test]
fn scalars_only_mode_returns_exactly_three_points() {
    let sampler = CountingSampler;
    for n in [0usize, 1, 3, 4, 2048, 5000] {
        let (points, scalars) = generate_points_scalars_cond(&sampler, n, false);
        assert_eq!(points, vec![1, 2, 3]);
        assert_eq!(scalars.len(), n);
    }
}

#[test]
fn identity_is_planted_at_index_three() {
    let sampler = CountingSampler;
    for n in [4usize, 5, 100, 2048, 5000] {
        let (points, _) = generate_points_scalars(&sampler, n);
        assert_eq!(points[IDENTITY_INDEX], 0);
    }
}

#[test]
fn no_identity_injection_at_length_three_or_less() {
    let sampler = CountingSampler;
    let (points, _) = generate_points_scalars(&sampler, 3);
    assert_eq!(points, vec![1, 2, 3]);
    let (points, _) = generate_points_scalars(&sampler, 2);
    assert_eq!(points, vec![1, 2]);
    let (points, _) = generate_points_scalars(&sampler, 0);
    assert!(points.is_empty());
}

#[test]
fn exact_counting_sampler_output_for_a_small_length() {
    let sampler = CountingSampler;
    let (points, scalars) = generate_points_scalars(&sampler, 6);
    assert_eq!(points, vec![1, 2, 3, 0, 5, 6]);
    assert_eq!(scalars, vec![0, 1, 2, 3, 4, 5]);
}

#[test]
fn long_point_sequences_repeat_the_pool() {
    let sampler = CountingSampler;
    let n = 5000usize;
    let (points, _) = generate_points_scalars(&sampler, n);
    assert_eq!(points.len(), n);
    for i in 0..n {
        assert_eq!(points[i], points[i % POOL_CAP]);
    }
    // The pool holds POOL_CAP sampled entries, so the repetition period is
    // POOL_CAP exactly: entry 0 reappears at entry POOL_CAP.
    assert_eq!(points[POOL_CAP], points[0]);
    assert_eq!(points[POOL_CAP + IDENTITY_INDEX], 0);
}

#[test]
fn assemble_points_tiles_and_truncates() {
    let tiled = assemble_points(vec![10u64, 20, 30], 8);
    assert_eq!(tiled, vec![10, 20, 30, 10, 20, 30, 10, 20]);
    let kept: Vec<u64> = assemble_points(vec![7u64, 8], 2);
    assert_eq!(kept, vec![7, 8]);
    let empty: Vec<u64> = assemble_points(Vec::new(), 0);
    assert!(empty.is_empty());
}

/// A sampler backed by real entropy, as a curve-backed caller would supply:
/// points come from the generator-call's own fresh random source, scalars
/// each from their own freshly seeded one. The stand-in identity is
/// `u64::MAX`; a uniformly random draw collides with it only with
/// negligible probability.
struct EntropySampler;

impl CurveSampler<u64, u64> for EntropySampler {
    fn identity_spec(&self) -> u64 {
        u64::MAX
    }

    fn identity(&self) -> u64 {
        u64::MAX
    }

    fn sample_points(&self, rng: &mut ChaCha20Rng, count: usize) -> Vec<u64> {
        (0..count).map(|_| rng.next_u64()).collect()
    }

    fn sample_scalars(&self, count: usize) -> Vec<u64> {
        (0..count).map(|_| ChaCha20Rng::from_entropy().next_u64()).collect()
    }
}

#[test]
fn entropy_sampler_plants_identity_and_tiles() {
    let sampler = EntropySampler;
    let n = 3000usize;
    let (points, scalars) = generate_points_scalars(&sampler, n);
    assert_eq!(points.len(), n);
    assert_eq!(scalars.len(), n);
    assert_eq!(points[IDENTITY_INDEX], u64::MAX);
    for i in 0..n {
        assert_eq!(points[i], points[i % POOL_CAP]);
    }
}

#[test]
fn separate_calls_use_fresh_seeds() {
    let sampler = EntropySampler;
    let (points_a, scalars_a) = generate_points_scalars(&sampler, 32);
    let (points_b, scalars_b) = generate_points_scalars(&sampler, 32);
    assert_ne!(scalars_a, scalars_b);
    assert_ne!(points_a, points_b);

    let (_, cond_a) = generate_points_scalars_cond(&sampler, 32, false);
    let (_, cond_b) = generate_points_scalars_cond(&sampler, 32, false);
    assert_ne!(cond_a, cond_b);
}
