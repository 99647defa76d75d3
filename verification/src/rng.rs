//! Deterministic pseudo-random source.
//!
//! Every draw is a pure function of the seed, so a run is reproducible from
//! its parameters alone: no global state, no platform-dependent hashing.
//! The generator is a 64-bit xorshift; coordinate mixing feeds grid
//! positions through the same step function.

use vstd::prelude::*;

verus! {

/// A 64-bit odd constant used to displace degenerate seeds and salts.
pub const GOLD: u64 = 0x9E3779B97F4A7C15;

/// One xorshift round: the next generator state.
pub open spec fn spec_step(x: u64) -> u64 {
    let a = x ^ (x << 13);
    let b = a ^ (a >> 7);
    b ^ (b << 17)
}

/// The internal state a seed starts from. Zero is a fixed point of the
/// xorshift step, so it is replaced by a constant.
pub open spec fn spec_seed_state(seed: u64) -> u64 {
    if seed ^ GOLD == 0 {
        GOLD
    } else {
        seed ^ GOLD
    }
}

/// The mixed word for a pair of grid coordinates under a seed and a salt.
/// Coordinates are small, so the packing below is injective.
#[verifier::opaque]
pub open spec fn spec_mix(seed: u64, salt: u64, x: u64, y: u64) -> u64 {
    spec_step(spec_step(spec_step(seed ^ salt ^ (x << 32) ^ y ^ GOLD)))
}

/// The mixed word for a step from one cell to a neighbouring candidate,
/// used to perturb near-equal flow choices (meander).
#[verifier::opaque]
pub open spec fn spec_mix4(x: u64, y: u64, nx: u64, ny: u64) -> u64 {
    spec_step(spec_step(spec_step((x << 48) ^ (y << 32) ^ (nx << 16) ^ ny ^ GOLD)))
}

/// Seeded xorshift generator.
pub struct Rng {
    state: u64,
}

impl Rng {
    pub closed spec fn spec_state(self) -> u64 {
        self.state
    }

    pub fn new(seed: u64) -> (r: Rng)
        ensures
            r.spec_state() == spec_seed_state(seed),
    {
        let s = seed ^ GOLD;
        if s == 0 {
            Rng { state: GOLD }
        } else {
            Rng { state: s }
        }
    }

    /// Advances the state one round and returns it.
    pub fn next_word(&mut self) -> (r: u64)
        ensures
            final(self).spec_state() == spec_step(old(self).spec_state()),
            r == final(self).spec_state(),
    {
        let a = self.state ^ (self.state << 13);
        let b = a ^ (a >> 7);
        let c = b ^ (b << 17);
        self.state = c;
        c
    }

    /// A draw from the half-open range `[lo, hi)`.
    pub fn gen_in(&mut self, lo: i64, hi: i64) -> (r: i64)
        requires
            lo < hi,
            -10_000_000_000 <= lo,
            hi <= 10_000_000_000,
        ensures
            final(self).spec_state() == spec_step(old(self).spec_state()),
            lo <= r < hi,
            r == lo + (spec_step(old(self).spec_state()) as int) % (hi - lo),
    {
        let span = (hi - lo) as u64;
        let w = self.next_word();
        let v = w % span;
        lo + (v as i64)
    }
}

/// The lattice value for a pair of coordinates: mixed into `[0, 2000]`.
pub open spec fn spec_lattice(seed: u64, salt: u64, x: u64, y: u64) -> i64 {
    (spec_mix(seed, salt, x, y) % 2001) as i64
}

/// Exec twin of [`spec_lattice`].
pub fn lattice(seed: u64, salt: u64, x: u64, y: u64) -> (r: i64)
    ensures
        r == spec_lattice(seed, salt, x, y),
        0 <= r <= 2000,
{
    proof {
        reveal(spec_mix);
    }
    let m = seed ^ salt ^ (x << 32) ^ y ^ GOLD;
    let a1 = m ^ (m << 13);
    let b1 = a1 ^ (a1 >> 7);
    let s1 = b1 ^ (b1 << 17);
    let a2 = s1 ^ (s1 << 13);
    let b2 = a2 ^ (a2 >> 7);
    let s2 = b2 ^ (b2 << 17);
    let a3 = s2 ^ (s2 << 13);
    let b3 = a3 ^ (a3 >> 7);
    let s3 = b3 ^ (b3 << 17);
    (s3 % 2001) as i64
}

/// Exec twin of [`spec_mix4`].
pub fn mix4(x: u64, y: u64, nx: u64, ny: u64) -> (r: u64)
    ensures
        r == spec_mix4(x, y, nx, ny),
{
    proof {
        reveal(spec_mix4);
    }
    let m = (x << 48) ^ (y << 32) ^ (nx << 16) ^ ny ^ GOLD;
    let a1 = m ^ (m << 13);
    let b1 = a1 ^ (a1 >> 7);
    let s1 = b1 ^ (b1 << 17);
    let a2 = s1 ^ (s1 << 13);
    let b2 = a2 ^ (a2 >> 7);
    let s2 = b2 ^ (b2 << 17);
    let a3 = s2 ^ (s2 << 13);
    let b3 = a3 ^ (a3 >> 7);
    b3 ^ (b3 << 17)
}

} // verus!
