//! The random source threaded through every randomised operation.
use rand::Rng;
use rand::rngs::StdRng;
use vstd::prelude::*;

verus! {

#[verifier::external_type_specification]
#[verifier::external_body]
pub struct ExStdRng(StdRng);

/// Relies on `Rng::gen::<bool>` (the `Standard` distribution on `bool`): a fair coin.
/// Nothing is promised of the outcome.
#[verifier::external_body]
pub(crate) fn fair_coin(rng: &mut StdRng) -> (r: bool) {
    rng.gen::<bool>()
}

/// Relies on `Rng::gen_range` over `0..n`, which panics only on an empty range
/// and otherwise returns a value of the range.
#[verifier::external_body]
pub(crate) fn uniform_below(rng: &mut StdRng, n: u128) -> (r: u128)
    requires
        n > 0,
    ensures
        r < n,
{
    rng.gen_range(0..n)
}

/// Relies on `Rng::gen_ratio`: true with chance `numerator / denominator`, which is
/// guaranteed false for a zero numerator and guaranteed true when the two are equal.
/// It panics when the denominator is zero or below the numerator.
#[verifier::external_body]
pub(crate) fn chance_ratio(rng: &mut StdRng, numerator: u32, denominator: u32) -> (r: bool)
    requires
        0 < denominator,
        numerator <= denominator,
    ensures
        numerator == 0 ==> !r,
        numerator == denominator ==> r,
{
    rng.gen_ratio(numerator, denominator)
}

} // verus!
