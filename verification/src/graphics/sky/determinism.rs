//! Simulation determinism policy and seeded RNG.

use vstd::prelude::*;

verus! {

/// One step of the xorshift generator.
pub open spec fn xorshift_step(s: u64) -> u64 {
    let a = s ^ (s << 13u64);
    let b = a ^ (a >> 7u64);
    b ^ (b << 17u64)
}

/// The state after `n` steps from `seed`.
pub open spec fn state_after(seed: u64, n: nat) -> u64
    decreases n,
{
    if n == 0 {
        seed
    } else {
        xorshift_step(state_after(seed, (n - 1) as nat))
    }
}

pub struct WeatherDeterminism {
    pub master_seed: u64,
    state: u64,
}

impl WeatherDeterminism {
    /// The generator's current state.
    pub closed spec fn spec_state(&self) -> u64 {
        self.state
    }

    /// The seed the generator was created from (its public field).
    pub closed spec fn spec_master_seed(&self) -> u64 {
        self.master_seed
    }

    /// The seed the generator was created from.
    pub fn master_seed(&self) -> (seed: u64)
        ensures
            seed == self.spec_master_seed(),
    {
        self.master_seed
    }

    pub fn new(seed: u64) -> (rng: Self)
        ensures
            rng.spec_master_seed() == seed,
            rng.spec_state() == seed,
            rng.spec_state() == state_after(seed, 0),
    {
        Self { master_seed: seed, state: seed }
    }

    pub fn next_u64(&mut self) -> (value: u64)
        ensures
            value == xorshift_step(old(self).spec_state()),
            final(self).spec_state() == value,
            forall|seed: u64, n: nat|
                old(self).spec_state() == #[trigger] state_after(seed, n) ==> value == state_after(
                    seed,
                    n + 1,
                ),
            final(self).spec_master_seed() == old(self).spec_master_seed(),
    {
        proof {
            assert forall|seed: u64, n: nat| old(self).spec_state() == #[trigger] state_after(seed, n) implies
                xorshift_step(old(self).spec_state()) == state_after(seed, n + 1) by {
                lemma_draws_follow_seed(seed, n);
            }
        }
        self.state = self.state ^ (self.state << 13u64);
        self.state = self.state ^ (self.state >> 7u64);
        self.state = self.state ^ (self.state << 17u64);
        self.state
    }

    pub fn fork(&self, salt: u64) -> (child: Self)
        ensures
            child.spec_master_seed() == self.spec_master_seed().wrapping_add(salt),
            child.spec_state() == self.spec_master_seed().wrapping_add(salt),
    {
        Self::new(self.master_seed.wrapping_add(salt))
    }
}

/// A generator never falls into the all-zero state from a nonzero one, so a
/// nonzero seed keeps producing values.
pub proof fn lemma_step_keeps_nonzero(s: u64)
    requires
        s != 0,
    ensures
        xorshift_step(s) != 0,
{
    let a = s ^ (s << 13u64);
    let b = a ^ (a >> 7u64);
    assert(s != 0 ==> s ^ (s << 13u64) != 0) by (bit_vector);
    assert(a != 0 ==> a ^ (a >> 7u64) != 0) by (bit_vector);
    assert(b != 0 ==> b ^ (b << 17u64) != 0) by (bit_vector);
}

/// From a nonzero seed the generator never reaches the zero state, however
/// many values are drawn.
pub proof fn lemma_seeded_sequence_nonzero(seed: u64, n: nat)
    requires
        seed != 0,
    ensures
        state_after(seed, n) != 0,
    decreases n,
{
    if n > 0 {
        lemma_seeded_sequence_nonzero(seed, (n - 1) as nat);
        lemma_step_keeps_nonzero(state_after(seed, (n - 1) as nat));
    }
}

/// Determinism: a generator whose state is the one reached after `n` draws
/// from `seed` hands out, on its next draw, the state reached after `n + 1`
/// draws; so the `k`-th draw of every generator created from `seed` is
/// `state_after(seed, k)`, the same stream for the same seed.
pub proof fn lemma_draws_follow_seed(seed: u64, n: nat)
    ensures
        xorshift_step(state_after(seed, n)) == state_after(seed, n + 1),
{
}

/// The zero seed is degenerate: every state reached from it, and so every
/// value drawn, is zero.
pub proof fn lemma_zero_seed_stays_zero(n: nat)
    ensures
        state_after(0, n) == 0,
    decreases n,
{
    if n > 0 {
        lemma_zero_seed_stays_zero((n - 1) as nat);
        assert(xorshift_step(0) == 0) by (bit_vector);
    }
}

} // verus!
