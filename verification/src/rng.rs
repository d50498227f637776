//! The library's only source of randomness: a seeded `rand::rngs::StdRng`
//! and a weighted index distribution over it.
//!
//! Every item here that carries `external_body` is a trusted wrapper around
//! one function of the `rand` crate; the contracts state only what that
//! crate's source shows of every possible outcome.

use vstd::prelude::*;
use rand::Rng;
use rand::SeedableRng;
use rand::distributions::Distribution;

verus! {

#[verifier::external_type_specification]
#[verifier::external_body]
pub struct ExStdRng(rand::rngs::StdRng);

/// A weighted sampling distribution over `u64` weights. The inner
/// `rand::distributions::WeightedIndex` is opaque to the verifier; the
/// wrappers below describe it through `wi_weights`.
#[verifier::external_body]
pub struct WeightedDist {
    inner: rand::distributions::WeightedIndex<u64>,
}

/// The weights a `WeightedDist` was built from, in order.
pub uninterp spec fn wi_weights(d: WeightedDist) -> Seq<u64>;

/// The sum of a sequence of weights.
pub open spec fn sum_u64(s: Seq<u64>) -> int
    decreases s.len(),
{
    if s.len() == 0 {
        0
    } else {
        sum_u64(s.drop_last()) + s.last()
    }
}

/// Relies on `rand::SeedableRng::seed_from_u64`: builds a generator whose
/// stream is a function of the seed alone.
#[verifier::external_body]
pub fn rng_from_seed(seed: u64) -> rand::rngs::StdRng {
    rand::rngs::StdRng::seed_from_u64(seed)
}

/// Relies on `rand::Rng::gen_range`: a draw from a nonempty range lies in
/// that range.
#[verifier::external_body]
pub fn rand_below(rng: &mut rand::rngs::StdRng, n: i64) -> (r: i64)
    requires
        n > 0,
    ensures
        0 <= r < n,
{
    rng.gen_range(0..n)
}

/// Relies on `rand::Rng::gen` for `bool`: nothing is promised of the draw.
#[verifier::external_body]
pub fn rand_bool(rng: &mut rand::rngs::StdRng) -> bool {
    rng.gen::<bool>()
}

/// Relies on `rand::distributions::WeightedIndex::new`: for `u64` weights
/// whose sum fits, construction succeeds exactly when there is at least one
/// weight and the sum is positive.
#[verifier::external_body]
pub fn new_weighted_index(weights: &Vec<u64>) -> (r: Option<WeightedDist>)
    requires
        sum_u64(weights@) <= u64::MAX,
    ensures
        r is Some <==> (weights@.len() > 0 && sum_u64(weights@) > 0),
        r is Some ==> wi_weights(r->0) == weights@,
{
    rand::distributions::WeightedIndex::new(weights).ok().map(|d| WeightedDist { inner: d })
}

/// Relies on `rand::distributions::WeightedIndex::sample`: the sampled
/// index always addresses one of the weights the index was built from.
#[verifier::external_body]
pub fn sample_weighted(d: &WeightedDist, rng: &mut rand::rngs::StdRng) -> (i: usize)
    ensures
        i < wi_weights(*d).len(),
{
    d.inner.sample(rng)
}

} // verus!
