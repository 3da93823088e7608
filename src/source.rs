//! Seedable streams of 64-bit words, the primitive every generator draws on.
use rand::{RngCore, SeedableRng};
use rand_xoshiro::Xoshiro256StarStar;
use vstd::prelude::*;

verus! {

/// A seedable, deterministic source of 64-bit words.
///
/// A source is modelled by the seed it was made from and the number of
/// words drawn from it so far; the `i`-th word (counting from 0) of the
/// stream seeded with `seed` is `Self::word(seed, i)`.
pub trait WordSource: Sized {
    /// The seed this source was created from.
    spec fn seed(&self) -> u64;

    /// How many words have been drawn since the source was seeded.
    spec fn drawn(&self) -> nat;

    /// The word at position `i` of the stream seeded with `seed`.
    spec fn word(seed: u64, i: nat) -> u64;

    /// Creates a source seeded with `seed`.
    fn from_seed(seed: u64) -> (r: Self)
        ensures
            r.seed() == seed,
            r.drawn() == 0,
    ;

    /// Draws the next word of the stream.
    fn next_word(&mut self) -> (w: u64)
        ensures
            final(self).seed() == old(self).seed(),
            final(self).drawn() == old(self).drawn() + 1,
            w == Self::word(old(self).seed(), old(self).drawn()),
    ;
}

#[verifier::external_type_specification]
#[verifier::external_body]
pub struct ExXoshiro256StarStar(Xoshiro256StarStar);

/// The seed a xoshiro256** generator was created from.
pub uninterp spec fn xoshiro_seed(r: Xoshiro256StarStar) -> u64;

/// The number of words drawn from a xoshiro256** generator since seeding.
pub uninterp spec fn xoshiro_drawn(r: Xoshiro256StarStar) -> nat;

/// The word at position `i` of the xoshiro256** stream seeded with `seed`.
pub uninterp spec fn xoshiro_word(seed: u64, i: nat) -> u64;

/// Relies on `SeedableRng::seed_from_u64` for `Xoshiro256StarStar`: it
/// expands the seed with SplitMix64 and draws nothing, so the result is a
/// generator at the start of the stream that the seed determines.
#[verifier::external_body]
fn xoshiro_seeded(seed: u64) -> (r: Xoshiro256StarStar)
    ensures
        xoshiro_seed(r) == seed,
        xoshiro_drawn(r) == 0,
{
    Xoshiro256StarStar::seed_from_u64(seed)
}

/// Relies on `RngCore::next_u64` for `Xoshiro256StarStar`: it returns the
/// next word of the generator's deterministic stream and moves one word on.
#[verifier::external_body]
fn xoshiro_next(r: &mut Xoshiro256StarStar) -> (w: u64)
    ensures
        xoshiro_seed(*final(r)) == xoshiro_seed(*old(r)),
        xoshiro_drawn(*final(r)) == xoshiro_drawn(*old(r)) + 1,
        w == xoshiro_word(xoshiro_seed(*old(r)), xoshiro_drawn(*old(r))),
{
    r.next_u64()
}

impl WordSource for Xoshiro256StarStar {
    open spec fn seed(&self) -> u64 {
        xoshiro_seed(*self)
    }

    open spec fn drawn(&self) -> nat {
        xoshiro_drawn(*self)
    }

    open spec fn word(seed: u64, i: nat) -> u64 {
        xoshiro_word(seed, i)
    }

    fn from_seed(seed: u64) -> (r: Self) {
        xoshiro_seeded(seed)
    }

    fn next_word(&mut self) -> (w: u64) {
        xoshiro_next(self)
    }
}

} // verus!
