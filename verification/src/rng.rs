use vstd::prelude::*;

verus! {

/// Draws a uniform integer in [0, n).
/// Relies on rand::Rng::gen_range, which samples uniformly in [low, high)
/// and needs low < high.
#[verifier::external_body]
pub(crate) fn rng_below<R: rand::Rng>(rng: &mut R, n: u32) -> (r: u32)
    requires
        1 <= n,
    ensures
        r < n,
{
    rng.gen_range(0, n)
}

/// Draws one Bernoulli trial that succeeds one time in three.
/// Relies on rand::Rng::gen_ratio with numerator 1 and denominator 3, which
/// cannot fail for that ratio. Nothing can be promised of the outcome.
#[verifier::external_body]
pub(crate) fn rng_one_in_three<R: rand::Rng>(rng: &mut R) -> (r: bool)
{
    rng.gen_ratio(1, 3)
}

} // verus!
