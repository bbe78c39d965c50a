//! A seeded pseudorandom stream, carried by `rand_pcg`'s 64-bit PCG
//! generator.
//!
//! The stream is the one source of nondeterminism-looking data in the tree,
//! and it is in fact deterministic: seeding and drawing are pure functions of
//! the seed, so every draw is named by [`pcg_output`] and the whole run is
//! reproducible.  Each draw hands back one raw 64-bit step; every narrower
//! value the algorithm needs (a byte, a 32-bit fragment, an index, a
//! unit-interval sample) is cut out of such a step in verified code.
use vstd::prelude::*;

verus! {

#[verifier::external_type_specification]
#[verifier::external_body]
pub struct ExLcg128Xsl64(rand_pcg::Lcg128Xsl64);

/// The `k`-th 64-bit value (counting from zero) that a
/// `rand_pcg::Lcg128Xsl64` generator seeded with `seed_from_u64(seed)`
/// produces.  `rand_core`'s `seed_from_u64` builds the 256-bit seed from the
/// 64-bit one by a fixed arithmetic expansion, and the generator steps its
/// state by a fixed multiply-and-add, so both are pure functions of the seed
/// and this is a function of `seed` and `k` alone; nothing more is assumed
/// of it.
pub uninterp spec fn pcg_output(seed: u64, k: nat) -> u64;

/// A pseudorandom stream: the generator itself, with the seed it was built
/// from and how many values have been drawn so far.
///
/// The fields stay private so that only this module can construct a stream:
/// the contracts below rest on `rng` always being the generator built from
/// `seed` and advanced `drawn` steps, and nothing outside this module can
/// break that pairing.
pub struct RandomStream {
    rng: rand_pcg::Lcg128Xsl64,
    seed: Ghost<u64>,
    drawn: Ghost<nat>,
}

impl RandomStream {
    /// The seed this stream was built from.
    pub closed spec fn seed(&self) -> u64 {
        self.seed@
    }

    /// How many values have been drawn so far.
    pub closed spec fn drawn(&self) -> nat {
        self.drawn@
    }
}

/// Relies on `rand_core::SeedableRng::seed_from_u64` for
/// `rand_pcg::Lcg128Xsl64`: it builds the generator's state from the 64-bit
/// seed alone, by a fixed expansion.  The result is opaque; what its draws
/// return is stated on [`stream_next`].
#[verifier::external_body]
fn pcg_from_seed(seed: u64) -> rand_pcg::Lcg128Xsl64 {
    <rand_pcg::Lcg128Xsl64 as rand::SeedableRng>::seed_from_u64(seed)
}

/// A fresh stream seeded with `seed`, with no values drawn yet.
///
/// This module maintains, and is the only one able to touch, the pairing
/// between the opaque generator and the two ghost fields: `rng` is always
/// the generator built from `seed` and advanced `drawn` steps.  It holds
/// here by construction and [`stream_next`] keeps it.
pub(crate) fn stream_new(seed: u64) -> (s: RandomStream)
    ensures
        s.seed() == seed,
        s.drawn() == 0,
{
    RandomStream { rng: pcg_from_seed(seed), seed: Ghost(seed), drawn: Ghost(0) }
}

/// Relies on `rand_core::RngCore::next_u64` for `rand_pcg::Lcg128Xsl64`: it
/// advances the state by one fixed step and returns a value computed from
/// that state alone, so the `k`-th draw from a given seed is always
/// [`pcg_output`]`(seed, k)`.
#[verifier::external_body]
pub(crate) fn stream_next(s: &mut RandomStream) -> (r: u64)
    ensures
        final(s).seed() == old(s).seed(),
        final(s).drawn() == old(s).drawn() + 1,
        r == pcg_output(old(s).seed(), old(s).drawn()),
{
    rand::RngCore::next_u64(&mut s.rng)
}

} // verus!
