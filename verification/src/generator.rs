//! The synthetic input generator: a bounded pool of uniformly random curve
//! points, extended to the requested length by whole-pool repetition, with a
//! group identity element injected at a fixed index, and an independently
//! sampled vector of scalar-field elements.

use vstd::prelude::*;

verus! {

use vstd::arithmetic::div_mod::lemma_small_mod;

/// Largest number of independently sampled points in one pool; longer point
/// sequences repeat the pool rather than spend more entropy.
pub const POOL_CAP: usize = 2048;

/// Index at which the generator deliberately plants the group identity
/// element, so that large inputs always exercise the identity edge case.
pub const IDENTITY_INDEX: usize = 3;

/// How many points one call aims to return: the requested length, or a
/// minimal fixed count of 3 when the caller asks for scalars only.
pub open spec fn point_target(len: nat, with_points: bool) -> nat {
    if with_points {
        len
    } else {
        3
    }
}

/// How many points are actually drawn from the random source: the point
/// target, capped at `POOL_CAP`.
pub open spec fn pool_size(target: nat) -> nat {
    if target < POOL_CAP as nat {
        target
    } else {
        POOL_CAP as nat
    }
}

/// The pool extended to exactly `target` entries by whole-pool repetition
/// followed by truncation: entry `i` is pool entry `i mod pool.len()`.
pub open spec fn tiled<P>(pool: Seq<P>, target: nat) -> Seq<P> {
    Seq::new(target, |i: int| pool[i % (pool.len() as int)])
}

/// The generator's random source for point sampling; a fresh one is seeded
/// for every call, so no generator state is shared between calls.
#[verifier::external_type_specification]
#[verifier::external_body]
pub struct ExChaCha20Rng(rand_chacha::ChaCha20Rng);

/// Relies on rand's `SeedableRng::from_entropy` for `ChaCha20Rng`: a
/// generator freshly seeded from operating-system entropy. Nothing is
/// promised of its state; callers treat every outcome alike.
#[verifier::external_body]
fn fresh_rng() -> rand_chacha::ChaCha20Rng {
    <rand_chacha::ChaCha20Rng as rand::SeedableRng>::from_entropy()
}

/// The curve arithmetic and sampling capability a caller supplies, one
/// implementation per curve: uniformly random affine points drawn from a
/// given random source, the group identity element, and independently
/// seeded random scalars.
pub trait CurveSampler<P: Copy, S> {
    /// The group identity element (the point at infinity), as a spec value.
    spec fn identity_spec(&self) -> P;

    /// Returns the group identity element.
    fn identity(&self) -> (r: P)
        ensures
            r == self.identity_spec(),
    ;

    /// Draws `count` uniformly random points from `rng`, normalized to
    /// affine form as a batch.
    fn sample_points(&self, rng: &mut rand_chacha::ChaCha20Rng, count: usize) -> (r: Vec<P>)
        ensures
            r@.len() == count as nat,
    ;

    /// Draws `count` scalar-field elements, each from its own freshly
    /// seeded random source, independent of any point pool; entry order
    /// follows index order.
    fn sample_scalars(&self, count: usize) -> (r: Vec<S>)
        ensures
            r@.len() == count as nat,
    ;
}

/// Extends the sampled pool to exactly `target` points by whole-pool
/// repetition followed by truncation.
pub fn assemble_points<P: Copy>(pool: Vec<P>, target: usize) -> (r: Vec<P>)
    requires
        pool@.len() == pool_size(target as nat),
    ensures
        r@ == tiled(pool@, target as nat),
{
    let m = pool.len();
    let mut out: Vec<P> = Vec::with_capacity(target);
    let mut i: usize = 0;
    while i < target
        invariant
            i <= target,
            m == pool@.len(),
            m == pool_size(target as nat),
            out@.len() == i as nat,
            forall|j: int| 0 <= j < i ==> out@[j] == pool@[j % (m as int)],
        decreases target - i,
    {
        out.push(pool[i % m]);
        i += 1;
    }
    proof {
        assert(out@ =~= tiled(pool@, target as nat));
    }
    out
}

/// Produces the benchmark inputs: a point sequence of `point_target(len)`
/// entries and an independently sampled scalar sequence of exactly `len`
/// entries.
///
/// When `is_with_p` is false the point count is fixed at 3, so callers that
/// only need scalars pay a fixed, cheap point cost. At most `POOL_CAP`
/// points are drawn from a freshly seeded random source; a longer sequence
/// repeats that pool, so entry `i` always equals entry `i mod pool_size`.
/// When more than 3 points are returned, the entry at `IDENTITY_INDEX` is
/// deterministically overwritten with the group identity element. The
/// generator is total: every `len`, including 0, is accepted.
pub fn generate_points_scalars_cond<P: Copy, S, C: CurveSampler<P, S>>(
    sampler: &C,
    len: usize,
    is_with_p: bool,
) -> (r: (Vec<P>, Vec<S>))
    ensures
        r.1@.len() == len as nat,
        r.0@.len() == point_target(len as nat, is_with_p),
        forall|i: int|
            0 <= i < r.0@.len() ==> #[trigger] r.0@[i] == r.0@[
                i % (pool_size(point_target(len as nat, is_with_p)) as int)
            ],
        point_target(len as nat, is_with_p) > 3 ==> r.0@[IDENTITY_INDEX as int]
            == sampler.identity_spec(),
{
    let target: usize = if is_with_p {
        len
    } else {
        3
    };
    let pool_n: usize = if target < POOL_CAP {
        target
    } else {
        POOL_CAP
    };
    let mut rng = fresh_rng();
    let mut pool = sampler.sample_points(&mut rng, pool_n);
    if target > IDENTITY_INDEX {
        let id = sampler.identity();
        pool[IDENTITY_INDEX] = id;
    }
    let points = assemble_points(pool, target);
    let scalars = sampler.sample_scalars(len);
    proof {
        let t = point_target(len as nat, is_with_p);
        let m = pool_size(t) as int;
        assert forall|i: int| 0 <= i < points@.len() implies #[trigger] points@[i] == points@[
            i % m
        ] by {
            assert(0 <= i % m < m);
            lemma_small_mod((i % m) as nat, m as nat);
        }
        if t > 3 {
            lemma_small_mod(IDENTITY_INDEX as nat, m as nat);
        }
    }
    (points, scalars)
}

/// Produces a point sequence and a scalar sequence of `len` entries each
/// (with the bounded-pool repetition and identity injection described at
/// `generate_points_scalars_cond`).
pub fn generate_points_scalars<P: Copy, S, C: CurveSampler<P, S>>(sampler: &C, len: usize) -> (r:
    (Vec<P>, Vec<S>))
    ensures
        r.1@.len() == len as nat,
        r.0@.len() == len as nat,
        forall|i: int|
            0 <= i < r.0@.len() ==> #[trigger] r.0@[i] == r.0@[i % (pool_size(len as nat) as int)],
        len > 3 ==> r.0@[IDENTITY_INDEX as int] == sampler.identity_spec(),
{
    generate_points_scalars_cond(sampler, len, true)
}

/// A deterministic sampler over plain integers, for exercising the
/// generator without curve arithmetic: "point" number `i` of a draw is
/// `i + 1`, the identity element is 0, and "scalar" number `i` is `i`.
/// It draws nothing from the random source.
pub struct CountingSampler;

impl CurveSampler<u64, u64> for CountingSampler {
    /// The stand-in identity element is 0.
    open spec fn identity_spec(&self) -> u64 {
        0u64
    }

    fn identity(&self) -> (r: u64) {
        0u64
    }

    fn sample_points(&self, rng: &mut rand_chacha::ChaCha20Rng, count: usize) -> (r: Vec<u64>)
        ensures
            forall|j: int| 0 <= j < count ==> r@[j] == j + 1,
    {
        let mut out: Vec<u64> = Vec::with_capacity(count);
        let mut i: usize = 0;
        while i < count
            invariant
                i <= count,
                out@.len() == i as nat,
                forall|j: int| 0 <= j < i ==> out@[j] == j + 1,
            decreases count - i,
        {
            out.push((i as u64) + 1);
            i += 1;
        }
        out
    }

    fn sample_scalars(&self, count: usize) -> (r: Vec<u64>)
        ensures
            forall|j: int| 0 <= j < count ==> r@[j] == j,
    {
        let mut out: Vec<u64> = Vec::with_capacity(count);
        let mut i: usize = 0;
        while i < count
            invariant
                i <= count,
                out@.len() == i as nat,
                forall|j: int| 0 <= j < i ==> out@[j] == j,
            decreases count - i,
        {
            out.push(i as u64);
            i += 1;
        }
        out
    }
}

} // verus!
