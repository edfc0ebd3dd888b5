//! Zero-dependency xorshift64 pseudo-random generator used by the breakup engine.

use vstd::prelude::*;

verus! {

/// State used when a generator is seeded with zero (xorshift never leaves zero).
pub const DEFAULT_NONZERO_STATE: u64 = 0xdeadbeef_cafebabe;

/// One xorshift64 step with shifts 13, 7, 17.
pub open spec fn xorshift_step(x: u64) -> u64 {
    let a = x ^ (x << 13u64);
    let b = a ^ (a >> 7u64);
    b ^ (b << 17u64)
}

/// The state reached from `state` after `n` draws.
pub open spec fn state_after(state: u64, n: nat) -> u64
    decreases n,
{
    if n == 0 {
        state
    } else {
        xorshift_step(state_after(state, (n - 1) as nat))
    }
}

/// The state a generator created from `seed` starts in.
pub open spec fn seeded_state(seed: u64) -> u64 {
    if seed == 0 {
        DEFAULT_NONZERO_STATE
    } else {
        seed
    }
}

/// Each xorshift step maps a non-zero state to a non-zero state: the generator
/// never falls into the absorbing all-zero state.
pub proof fn lemma_step_keeps_nonzero(x: u64)
    requires
        x != 0,
    ensures
        xorshift_step(x) != 0,
{
    let a = x ^ (x << 13u64);
    let b = a ^ (a >> 7u64);
    assert(a != 0) by (bit_vector)
        requires
            x != 0,
            a == x ^ (x << 13u64),
    ;
    assert(b != 0) by (bit_vector)
        requires
            a != 0,
            b == a ^ (a >> 7u64),
    ;
    assert(b ^ (b << 17u64) != 0) by (bit_vector)
        requires
            b != 0,
    ;
}

/// Every state reachable from a seeded generator is non-zero, so every drawn value is
/// non-zero, whatever the seed.
pub proof fn lemma_stream_never_zero(seed: u64, n: nat)
    ensures
        state_after(seeded_state(seed), n) != 0,
    decreases n,
{
    if n > 0 {
        lemma_stream_never_zero(seed, (n - 1) as nat);
        lemma_step_keeps_nonzero(state_after(seeded_state(seed), (n - 1) as nat));
    }
}

/// A zero seed produces exactly the stream of the seed `0xdeadbeef_cafebabe`.
pub proof fn lemma_zero_seed_stream(n: nat)
    ensures
        state_after(seeded_state(0), n) == state_after(seeded_state(DEFAULT_NONZERO_STATE), n),
{
}

/// Simple, zero-dependency, high-throughput pseudo-random number generator (Xorshift64).
#[derive(Debug, Clone)]
pub struct SimpleRng {
    /// Internal 64-bit state.
    pub state: u64,
}

impl SimpleRng {
    /// Creates a new `SimpleRng` initialized with the given seed;
    /// a zero seed is replaced by `0xdeadbeef_cafebabe`.
    pub fn new(seed: u64) -> (rng: Self)
        ensures
            rng.state == seeded_state(seed),
            rng.state != 0,
    {
        SimpleRng { state: if seed == 0 { DEFAULT_NONZERO_STATE } else { seed } }
    }

    /// Generates the next pseudo-random unsigned 64-bit integer using Xorshift64.
    pub fn next_u64(&mut self) -> (r: u64)
        ensures
            r == xorshift_step(old(self).state),
            final(self).state == r,
            old(self).state != 0 ==> r != 0,
    {
        proof {
            if self.state != 0 {
                lemma_step_keeps_nonzero(self.state);
            }
        }
        let mut x = self.state;
        x ^= x << 13u64;
        x ^= x >> 7u64;
        x ^= x << 17u64;
        self.state = x;
        x
    }

    /// Draws the next value and keeps its top 53 bits: the integer mantissa from which
    /// the uniform draw in `[0, 1)` is formed (divided by `2^53`).
    pub fn next_mantissa(&mut self) -> (m: u64)
        ensures
            final(self).state == xorshift_step(old(self).state),
            m == xorshift_step(old(self).state) >> 11u64,
            m < 0x20_0000_0000_0000u64,
    {
        let x = self.next_u64();
        assert(x >> 11u64 < 0x20_0000_0000_0000u64) by (bit_vector);
        x >> 11u64
    }
}

} // verus!
