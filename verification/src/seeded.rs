//! A seeded `rand` generator that keeps, beside it, the seed it was created
//! from and the log of the draws made from it. The fields are private: only
//! the calls here create the generator and draw from it, and each records
//! what it handed to `rand` and what came back.
use vstd::prelude::*;
use rand::rngs::StdRng;

verus! {

#[verifier::external_type_specification]
#[verifier::external_body]
pub struct ExStdRng(StdRng);

/// One draw from a generator: what was asked for and what came back.
#[derive(Debug, Clone, Copy, PartialEq, Eq, Structural)]
pub enum Draw {
    /// A value from `lo..=hi`.
    Range { lo: u64, hi: u64, value: u64 },
    /// A Bernoulli trial with success chance `numerator / denominator`.
    Ratio { numerator: u32, denominator: u32, hit: bool },
}

/// A generator, the seed it was created from and its draws so far.
pub struct SeededRng {
    rng: StdRng,
    seed: Ghost<u64>,
    draws: Ghost<Seq<Draw>>,
}

impl SeededRng {
    /// The seed this generator was created from.
    pub closed spec fn seed(&self) -> u64 {
        self.seed@
    }

    /// The draws made from this generator, in order.
    pub closed spec fn draws(&self) -> Seq<Draw> {
        self.draws@
    }
}

/// `rand::SeedableRng::seed_from_u64` for `StdRng`: a generator seeded from
/// `seed`, with no draws yet. Nothing more is stated of the generator and no
/// name is given to it: `rand` documents `StdRng` as non-portable, its output
/// for a fixed seed may differ between platforms and versions.
#[verifier::external_body]
pub(crate) fn seeded_rng(seed: u64) -> (r: SeededRng)
    ensures
        r.seed() == seed,
        r.draws() == Seq::<Draw>::empty(),
{
    SeededRng { rng: <StdRng as rand::SeedableRng>::seed_from_u64(seed), seed: Ghost(seed), draws: Ghost(Seq::empty()) }
}

/// `rand::RngExt::random_range` on `lo..=hi`: by its documentation a value
/// in the inclusive range. It panics on an empty range, which `requires`
/// leaves out. The draw is logged and the seed stays; which value comes out
/// is not stated.
#[verifier::external_body]
pub(crate) fn draw_inclusive(rng: &mut SeededRng, lo: u64, hi: u64) -> (r: u64)
    requires
        lo <= hi,
    ensures
        lo <= r <= hi,
        final(rng).seed() == old(rng).seed(),
        final(rng).draws() == old(rng).draws().push(Draw::Range { lo, hi, value: r }),
{
    let r = rand::RngExt::random_range(&mut rng.rng, lo..=hi);
    rng.draws = Ghost(rng.draws@.push(Draw::Range { lo, hi, value: r }));
    r
}

/// `rand::RngExt::random_ratio(numerator, denominator)`: by its
/// documentation `true` with chance `numerator / denominator`, always `true`
/// when the two are equal and always `false` when `numerator` is 0. It
/// panics when `denominator` is 0 or below `numerator`, which `requires`
/// leaves out. The draw is logged and the seed stays; which value comes out
/// otherwise is not stated.
#[verifier::external_body]
pub(crate) fn draw_ratio(rng: &mut SeededRng, numerator: u32, denominator: u32) -> (r: bool)
    requires
        0 < denominator,
        numerator <= denominator,
    ensures
        numerator == denominator ==> r,
        numerator == 0 ==> !r,
        final(rng).seed() == old(rng).seed(),
        final(rng).draws() == old(rng).draws().push(Draw::Ratio { numerator, denominator, hit: r }),
{
    let r = rand::RngExt::random_ratio(&mut rng.rng, numerator, denominator);
    rng.draws = Ghost(rng.draws@.push(Draw::Ratio { numerator, denominator, hit: r }));
    r
}

} // verus!
