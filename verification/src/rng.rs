//! The game's seeded random number generator.
//!
//! The generator is `rand_pcg`'s `Pcg64` (`Lcg128Xsl64`). Verus sees it as an
//! opaque value; alongside it, `GameRng` carries a ghost model: how the
//! generator was seeded and how many numbers have been drawn since. A draw
//! is named as a function of that model, which is what makes the game's
//! contracts deterministic functions of the seed and the actions.

use rand::RngCore;
use rand::SeedableRng;
use rand_pcg::Lcg128Xsl64;
use vstd::prelude::*;

verus! {

#[verifier::external_type_specification]
#[verifier::external_body]
pub struct ExLcg128Xsl64(Lcg128Xsl64);

/// How a generator was created.
pub enum RngOrigin {
    /// `Pcg64::new(state, stream)`.
    StateStream { state: u128, stream: u128 },
    /// `Pcg64::seed_from_u64(seed)`.
    SeedU64 { seed: u64 },
}

/// The ghost model of a generator: its origin and the number of draws made.
pub struct RngModel {
    pub origin: RngOrigin,
    pub draws: nat,
}

impl RngModel {
    /// The model after one more draw.
    pub open spec fn advanced(self) -> RngModel {
        RngModel { origin: self.origin, draws: self.draws + 1 }
    }

    /// The model after `n` more draws.
    pub open spec fn advanced_by(self, n: nat) -> RngModel {
        RngModel { origin: self.origin, draws: self.draws + n }
    }
}

/// The `u32` that `RngCore::next_u32` returns from a `Pcg64` created as
/// `rng.origin` after `rng.draws` earlier draws.
pub uninterp spec fn pcg64_next_u32(rng: RngModel) -> u32;

/// The `u64` that `RngCore::next_u64` returns from a `Pcg64` created as
/// `rng.origin` after `rng.draws` earlier draws.
pub uninterp spec fn pcg64_next_u64(rng: RngModel) -> u64;

/// A `Pcg64` together with its ghost model.
pub struct GameRng {
    inner: Lcg128Xsl64,
    model: Ghost<RngModel>,
}

impl View for GameRng {
    type V = RngModel;

    closed spec fn view(&self) -> RngModel {
        self.model@
    }
}

/// Calls `rand_pcg::Pcg64::new(state, stream)`. The contract records only
/// the model: a fresh generator of that origin, with no draws made.
#[verifier::external_body]
fn pcg64_new(state: u128, stream: u128) -> (r: GameRng)
    ensures
        r@ == (RngModel { origin: RngOrigin::StateStream { state, stream }, draws: 0 }),
{
    GameRng {
        inner: Lcg128Xsl64::new(state, stream),
        model: Ghost(RngModel { origin: RngOrigin::StateStream { state, stream }, draws: 0 }),
    }
}

/// Calls `rand_core::SeedableRng::seed_from_u64` for `Pcg64`. The contract
/// records only the model: a fresh generator of that origin, no draws made.
#[verifier::external_body]
fn pcg64_seed_from_u64(seed: u64) -> (r: GameRng)
    ensures
        r@ == (RngModel { origin: RngOrigin::SeedU64 { seed }, draws: 0 }),
{
    GameRng {
        inner: Lcg128Xsl64::seed_from_u64(seed),
        model: Ghost(RngModel { origin: RngOrigin::SeedU64 { seed }, draws: 0 }),
    }
}

/// Calls `RngCore::next_u32` on the `Pcg64`. In `rand_pcg` 0.3 this advances
/// the generator by exactly one LCG step and returns a value that depends on
/// nothing but the generator's state: the contract names it as the draw
/// after `old(rng)@.draws` draws from that origin, and counts one more draw.
#[verifier::external_body]
fn pcg64_next_u32_call(rng: &mut GameRng) -> (r: u32)
    ensures
        r == pcg64_next_u32(old(rng)@),
        final(rng)@ == old(rng)@.advanced(),
{
    rng.inner.next_u32()
}

/// Calls `RngCore::next_u64` on the `Pcg64`: one LCG step, and a value that
/// depends on nothing but the generator's state, named like `next_u32`'s.
#[verifier::external_body]
fn pcg64_next_u64_call(rng: &mut GameRng) -> (r: u64)
    ensures
        r == pcg64_next_u64(old(rng)@),
        final(rng)@ == old(rng)@.advanced(),
{
    rng.inner.next_u64()
}

impl GameRng {
    /// A generator created as `Pcg64::new(state, stream)`.
    pub fn new(state: u128, stream: u128) -> (r: Self)
        ensures
            r@ == (RngModel { origin: RngOrigin::StateStream { state, stream }, draws: 0 }),
    {
        pcg64_new(state, stream)
    }

    /// A generator created as `Pcg64::seed_from_u64(seed)`.
    pub fn seed_from_u64(seed: u64) -> (r: Self)
        ensures
            r@ == (RngModel { origin: RngOrigin::SeedU64 { seed }, draws: 0 }),
    {
        pcg64_seed_from_u64(seed)
    }

    /// Draws the next `u32`.
    pub fn next_u32(&mut self) -> (r: u32)
        ensures
            r == pcg64_next_u32(old(self)@),
            final(self)@ == old(self)@.advanced(),
    {
        pcg64_next_u32_call(self)
    }

    /// Draws the next `u64`.
    pub fn next_u64(&mut self) -> (r: u64)
        ensures
            r == pcg64_next_u64(old(self)@),
            final(self)@ == old(self)@.advanced(),
    {
        pcg64_next_u64_call(self)
    }
}

} // verus!
