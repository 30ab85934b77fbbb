//! A small deterministic pseudo-random source.
//!
//! The generator keeps a 64-bit state and advances it with FNV-style
//! multiply-and-xor steps.  It is seeded exactly once, at startup, and is
//! fully deterministic afterwards: injecting a fixed seed reproduces every
//! draw, which is what both the tests and the lockstep engine need.

use vstd::prelude::*;

verus! {

/// The FNV-1a 64-bit offset basis; the generator's state before seeding.
pub const FNV_OFFSET_BASIS: u64 = 0xcbf29ce484222325;

/// The FNV-1a 64-bit prime, used in every mixing step.
pub const FNV_PRIME: u64 = 0x100000001b3;

/// One mixing step: multiply the state by the FNV prime (wrapping) and
/// fold one byte in with xor.
pub open spec fn mix_byte(state: u64, byte: u8) -> u64 {
    state.wrapping_mul(FNV_PRIME) ^ (byte as u64)
}

/// Fold the four bytes of `seed` into `state`, most significant byte first.
pub open spec fn absorb(state: u64, seed: u32) -> u64 {
    mix_byte(
        mix_byte(mix_byte(mix_byte(state, (seed >> 24) as u8), (seed >> 16) as u8), (seed >> 8) as u8),
        seed as u8,
    )
}

/// The state after one draw: the generator absorbs the low 32 bits of its
/// own state.
pub open spec fn next_state(state: u64) -> u64 {
    absorb(state, state as u32)
}

/// An explicit, injectable pseudo-random service.  Board placement and the
/// initial single-player heading draw from it; nothing else does.
pub struct RandomSource {
    state: u64,
}

impl RandomSource {
    /// The current 64-bit state, for contracts.
    pub closed spec fn state(self) -> u64 {
        self.state
    }

    /// A generator whose state is the FNV offset basis with `seed` absorbed.
    pub fn new(seed: u32) -> (r: RandomSource)
        ensures
            r.state() == absorb(FNV_OFFSET_BASIS, seed),
    {
        let mut rng = RandomSource { state: FNV_OFFSET_BASIS };
        mix_seed(&mut rng, seed);
        rng
    }
}

/// Fold the four bytes of `seed` into the generator, most significant first.
fn mix_seed(rng: &mut RandomSource, seed: u32)
    ensures
        final(rng).state() == absorb(old(rng).state(), seed),
{
    rng.state = rng.state.wrapping_mul(FNV_PRIME) ^ (((seed >> 24) as u8) as u64);
    rng.state = rng.state.wrapping_mul(FNV_PRIME) ^ (((seed >> 16) as u8) as u64);
    rng.state = rng.state.wrapping_mul(FNV_PRIME) ^ (((seed >> 8) as u8) as u64);
    rng.state = rng.state.wrapping_mul(FNV_PRIME) ^ ((seed as u8) as u64);
}

/// Draw the next 64-bit value.  The draw is deterministic: the new state,
/// which is also the value returned, is a pure function of the old state.
pub fn random_number(rng: &mut RandomSource) -> (r: u64)
    ensures
        final(rng).state() == next_state(old(rng).state()),
        r == final(rng).state(),
{
    let seed = rng.state as u32;
    mix_seed(rng, seed);
    rng.state
}

} // verus!
