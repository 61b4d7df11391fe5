//! The designated random source for seeding a flock: a 64-bit linear
//! congruential generator.  It is injectable and seedable, so construction is
//! reproducible; the stream is pinned exactly by `lcg_next`.

use vstd::prelude::*;

verus! {

/// LCG multiplier (Knuth's MMIX constant).
pub const LCG_MUL: u64 = 6364136223846793005;

/// LCG increment (Knuth's MMIX constant).
pub const LCG_INC: u64 = 1442695040888963407;

/// The successor of an LCG state.
pub open spec fn lcg_next(s: u64) -> u64 {
    (((s as int) * (LCG_MUL as int) + (LCG_INC as int)) % 0x1_0000_0000_0000_0000) as u64
}

/// The state after `n` steps from `seed`.
pub open spec fn rng_after(seed: u64, n: nat) -> u64
    decreases n,
{
    if n == 0 {
        seed
    } else {
        lcg_next(rng_after(seed, (n - 1) as nat))
    }
}

/// A seedable pseudo-random source.
#[derive(Clone, Copy, PartialEq, Eq, Structural, Debug)]
pub struct Rng {
    pub state: u64,
}

impl Rng {
    pub fn seeded(seed: u64) -> (r: Rng)
        ensures
            r.state == seed,
    {
        Rng { state: seed }
    }

    /// Advance one step and return the new state as the drawn value.
    pub fn next_u64(&mut self) -> (r: u64)
        ensures
            final(self).state == lcg_next(old(self).state),
            r == final(self).state,
    {
        proof {
            assert((self.state as int) * 6364136223846793005 + 1442695040888963407
                < 0x1_0000_0000_0000_0000_0000_0000_0000_0000) by (nonlinear_arith)
                requires
                    0 <= self.state <= 0xffff_ffff_ffff_ffff,
            ;
        }
        let wide: u128 = (self.state as u128) * (LCG_MUL as u128) + (LCG_INC as u128);
        let low: u64 = (wide % 0x1_0000_0000_0000_0000u128) as u64;
        self.state = low;
        low
    }

    /// Draw a value below `m` from the stream.
    pub fn below(&mut self, m: u64) -> (r: u64)
        requires
            m > 0,
        ensures
            final(self).state == lcg_next(old(self).state),
            r == (lcg_next(old(self).state) as int) % (m as int),
            r < m,
    {
        let v = self.next_u64();
        v % m
    }
}

} // verus!
