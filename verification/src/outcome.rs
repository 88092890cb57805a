//! The outcome of one attempt: a weighted random draw.

use rand::rngs::OsRng;
use rand::rngs::StdRng;
use rand::Rng;
use rand::SeedableRng;
use vstd::prelude::*;

verus! {

/// `rand::rngs::StdRng`, the generator that attempts draw their outcomes
/// from. Proofs see nothing of what is inside it: it is only carried from the
/// place that makes it to the draw.
#[verifier::external_type_specification]
#[verifier::external_body]
pub struct ExStdRng(StdRng);

/// The chance that one attempt succeeds, as a ratio of two integers.
#[derive(Clone, Copy, Debug, PartialEq, Eq, Structural)]
pub struct SuccessOdds {
    numerator: u32,
    denominator: u32,
}

impl SuccessOdds {
    /// The ratio is a probability: between zero and one, with a denominator
    /// that is not zero.
    pub closed spec fn wf(&self) -> bool {
        0 < self.denominator && self.numerator <= self.denominator
    }

    /// Successes per `spec_denominator` attempts.
    pub closed spec fn spec_numerator(&self) -> u32 {
        self.numerator
    }

    /// The number of attempts that `spec_numerator` is counted in.
    pub closed spec fn spec_denominator(&self) -> u32 {
        self.denominator
    }

    /// Every attempt succeeds.
    pub open spec fn always(&self) -> bool {
        self.spec_numerator() == self.spec_denominator()
    }

    /// No attempt succeeds.
    pub open spec fn never(&self) -> bool {
        self.spec_numerator() == 0
    }

    /// Builds the odds `numerator` in `denominator`, where that is a
    /// probability.
    pub fn new(numerator: u32, denominator: u32) -> (odds: Option<SuccessOdds>)
        ensures
            odds.is_some() <==> (0 < denominator && numerator <= denominator),
            odds.is_some() ==> {
                &&& odds.unwrap().wf()
                &&& odds.unwrap().spec_numerator() == numerator
                &&& odds.unwrap().spec_denominator() == denominator
            },
    {
        if denominator == 0 || numerator > denominator {
            None
        } else {
            Some(SuccessOdds { numerator, denominator })
        }
    }

    /// Successes per `denominator()` attempts.
    pub fn numerator(&self) -> (n: u32)
        ensures
            n == self.spec_numerator(),
    {
        self.numerator
    }

    /// The number of attempts that `numerator()` is counted in.
    pub fn denominator(&self) -> (d: u32)
        ensures
            d == self.spec_denominator(),
    {
        self.denominator
    }
}

/// `StdRng::from_rng` of rand on `OsRng`: a generator seeded by the operating
/// system, or nothing where the system gives no seed. Nothing is claimed of
/// the generator, nor that there is one.
#[verifier::external_body]
pub(crate) fn entropy_rng() -> (rng: Option<StdRng>) {
    StdRng::from_rng(OsRng).ok()
}

/// `Rng::gen_ratio` of rand, on a `StdRng`: `true` with a chance of
/// `numerator` in `denominator`. The contract keeps out the ratios on which
/// the call panics and claims the two cases that rand documents as certain:
/// equal numerator and denominator give `true`, a zero numerator `false`.
#[verifier::external_body]
pub(crate) fn draw_ratio(rng: &mut StdRng, numerator: u32, denominator: u32) -> (hit: bool)
    requires
        0 < denominator,
        numerator <= denominator,
    ensures
        numerator == denominator ==> hit,
        numerator == 0 ==> !hit,
{
    rng.gen_ratio(numerator, denominator)
}

/// A generator of a task's own, seeded independently of every other, or
/// nothing where the operating system gives no seed.
pub fn task_rng() -> (rng: Option<StdRng>) {
    entropy_rng()
}

/// Decides one attempt: the outcome is a success with the chance that `odds`
/// gives. Odds of one always succeed and odds of zero never do; between them
/// the outcome is the generator's.
pub fn simulate_api_call(rng: &mut StdRng, odds: &SuccessOdds) -> (success: bool)
    requires
        odds.wf(),
    ensures
        odds.always() ==> success,
        odds.never() ==> !success,
{
    draw_ratio(rng, odds.numerator, odds.denominator)
}

} // verus!
