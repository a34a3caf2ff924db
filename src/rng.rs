//! The random streams the library draws from, all of them `rand`'s `SmallRng`.
//!
//! Nothing can be promised about the values drawn; what is stated here is what
//! holds of every draw (a uniform index lies in its range, a weighted index
//! names one of the weights).
use rand::distributions::{Bernoulli, BernoulliError, Distribution};
use rand::rngs::SmallRng;
use rand::{Rng, SeedableRng};
use rand_distr::{WeightedAliasIndex, WeightedError};
use vstd::prelude::*;

verus! {

/// The seed of a `SmallRng` on a 64-bit target.
pub type Seed = [u8; 32];

#[verifier::external_type_specification]
#[verifier::external_body]
pub struct ExSmallRng(SmallRng);

#[verifier::external_type_specification]
#[verifier::external_body]
pub struct ExBernoulli(Bernoulli);

#[verifier::external_type_specification]
#[verifier::external_body]
pub struct ExBernoulliError(BernoulliError);

/// `rand_distr`'s `WeightedAliasIndex` over `u8` weights, held whole: Verus
/// refuses a declaration of that type, whose parameter is bound by an outside
/// trait.
#[verifier::external_body]
pub struct WeightedPicker {
    inner: WeightedAliasIndex<u8>,
}

#[verifier::external_type_specification]
#[verifier::external_body]
pub struct ExWeightedError(WeightedError);

/// Relies on `SmallRng`'s derived `Clone`: a generator in the same state.
pub assume_specification[ <SmallRng as Clone>::clone ](rng: &SmallRng) -> SmallRng;

/// Relies on `Bernoulli::from_ratio`, which refuses exactly the ratios that
/// are not a probability (numerator above denominator, or a zero denominator).
pub assume_specification[ Bernoulli::from_ratio ](numerator: u32, denominator: u32) -> (r: Result<
    Bernoulli,
    BernoulliError,
>)
    ensures
        r is Ok <==> (numerator <= denominator && denominator != 0),
;

/// How many weights a `WeightedPicker` was built from.
pub uninterp spec fn picker_weight_count(p: WeightedPicker) -> nat;

/// Relies on `WeightedAliasIndex::new` (rand_distr): it succeeds when there is
/// at least one weight and at most `u32::MAX` of them, every weight is at most
/// `u8::MAX / n` for `n` weights, and the weights do not sum to zero. The table
/// it builds keeps one entry per weight.
#[verifier::external_body]
pub(crate) fn new_weighted_picker(weights: Vec<u8>) -> (r: Result<WeightedPicker, WeightedError>)
    ensures
        (0 < weights@.len() <= u32::MAX && (forall|i: int|
            0 <= i < weights@.len() ==> weights@[i] as int * weights@.len() <= u8::MAX)
            && exists|i: int| 0 <= i < weights@.len() && weights@[i] != 0) ==> r is Ok,
        r is Ok ==> picker_weight_count(r->Ok_0) == weights@.len(),
{
    WeightedAliasIndex::new(weights).map(|inner| WeightedPicker { inner })
}

/// Relies on `SmallRng::from_seed`: a generator seeded with `seed`.
#[verifier::external_body]
pub(crate) fn small_rng_from_seed(seed: Seed) -> (r: SmallRng) {
    SmallRng::from_seed(seed)
}

/// Relies on `SmallRng::from_entropy`: a generator seeded from the operating
/// system's entropy source.
#[verifier::external_body]
pub(crate) fn small_rng_from_entropy() -> (r: SmallRng) {
    SmallRng::from_entropy()
}

/// Relies on `Rng::fill` over a byte array, which fills every byte and cannot
/// fail for a `SmallRng`: draws a fresh seed from `rng`.
#[verifier::external_body]
pub fn gen_seed(rng: &mut SmallRng) -> (r: Seed) {
    let mut seed: Seed = [0u8; 32];
    rng.fill(&mut seed);
    seed
}

/// Relies on `Rng::gen_range` over `0..n`, which panics only on an empty range:
/// a uniform index below `n`.
#[verifier::external_body]
pub(crate) fn draw_below(rng: &mut SmallRng, n: usize) -> (r: usize)
    requires
        n > 0,
    ensures
        r < n,
{
    rng.gen_range(0..n)
}

/// Relies on `Rng::gen_ratio`, which panics only where `Bernoulli::from_ratio`
/// refuses the ratio: `true` with probability `numerator / denominator`.
#[verifier::external_body]
pub(crate) fn draw_ratio(rng: &mut SmallRng, numerator: u32, denominator: u32) -> (r: bool)
    requires
        numerator <= denominator,
        denominator != 0,
{
    rng.gen_ratio(numerator, denominator)
}

/// Relies on `Distribution::sample` of a `Bernoulli`: one Bernoulli draw.
#[verifier::external_body]
pub(crate) fn draw_bernoulli(d: &Bernoulli, rng: &mut SmallRng) -> (r: bool) {
    d.sample(rng)
}

/// Relies on `Distribution::sample` of a `WeightedAliasIndex`, which returns
/// either a uniform candidate index or that candidate's alias, both of them
/// indices into the weights.
#[verifier::external_body]
pub(crate) fn draw_weighted(p: &WeightedPicker, rng: &mut SmallRng) -> (r: usize)
    ensures
        r < picker_weight_count(*p),
{
    p.inner.sample(rng)
}

} // verus!
