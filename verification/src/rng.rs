use vstd::prelude::*;

verus! {

/// The next state of the generator: one step of a 64-bit linear
/// congruential generator with the multiplier and increment from Knuth's
/// MMIX line.
pub open spec fn next_state(s: u64) -> u64 {
    (((s as int) * 6364136223846793005 + 1442695040888963407) % 0x10000000000000000) as u64
}

/// The decay amount drawn from a generator state: bit 32 of the state,
/// so always 0 or 1.
pub open spec fn decay_from(s: u64) -> usize {
    ((((s as int) / 0x100000000) % 2)) as usize
}

/// A seedable, deterministic random source for the decay draws of the
/// simulation. Injected explicitly into the fire field (never a hidden
/// global generator) so that every tick is reproducible from the seed.
#[derive(Clone, Copy, Debug, PartialEq, Eq, Structural)]
pub struct FireRng {
    pub state: u64,
}

impl FireRng {
    /// A generator starting from the given seed.
    pub fn new(seed: u64) -> (r: FireRng)
        ensures
            r.state == seed,
    {
        FireRng { state: seed }
    }

    /// Draws the next decay amount, uniformly from {0, 1}, and advances the
    /// generator state. Fully deterministic: both the new state and the
    /// draw are functions of the old state.
    pub fn next_decay(&mut self) -> (d: usize)
        ensures
            final(self).state == next_state(old(self).state),
            d == decay_from(final(self).state),
            d <= 1,
    {
        let s: u64 = self.state;
        proof {
            assert((s as int) * 6364136223846793005 + 1442695040888963407
                < 0x100000000000000000000000000000000) by (nonlinear_arith)
                requires
                    0 <= s as int <= 0xffffffffffffffff,
            ;
        }
        let wide: u128 = (s as u128) * 6364136223846793005u128 + 1442695040888963407u128;
        let next: u64 = (wide % 0x10000000000000000u128) as u64;
        self.state = next;
        ((next / 0x100000000u64) % 2) as usize
    }
}

} // verus!
