//! A deterministic noise source for measuring the defaults: the same numbers
//! every run, so a measurement that fails is a failure and not a bad draw.

use vstd::prelude::*;

verus! {

/// `2^32`: the generator's state wraps at this.
pub open spec fn modulus() -> nat {
    4294967296
}

/// One step of the linear congruential generator:
/// `state · 1664525 + 1013904223`, modulo `2^32`.
pub open spec fn next_state(state: u32) -> u32 {
    ((state * 1664525 + 1013904223) % (modulus() as int)) as u32
}

/// A linear congruential generator, seeded the same way every time.
pub struct Noise(u32);

impl Noise {
    pub closed spec fn spec_state(&self) -> u32 {
        self.0
    }

    pub fn new() -> (noise: Noise)
        ensures
            noise.spec_state() == 0x1234_5678,
    {
        Noise(0x1234_5678)
    }

    /// Steps the generator and returns the top 24 bits of the new state, a
    /// whole number in `0 .. 2^24`. The measurements take it as the sample
    /// `value / 2^23 · 2 − 1`, which lies in `−1 .. 3` and is then scaled to a
    /// level, so its offset is part of the signal.
    pub fn next(&mut self) -> (value: u32)
        ensures
            final(self).spec_state() == next_state(old(self).spec_state()),
            final(self).spec_state() as int == (old(self).spec_state() as int * 1664525
                + 1013904223) % 4294967296,
            value == final(self).spec_state() / 256,
            value < 16777216,
    {
        let state = self.0 as u64 * 1_664_525 + 1_013_904_223;
        let wrapped = (state % 4294967296) as u32;
        self.0 = wrapped;
        assert(wrapped >> 8u32 == wrapped / 256 && wrapped >> 8u32 < 16777216) by (bit_vector);
        wrapped >> 8
    }
}

/// **The whole 32-bit state is carried.** Each step is the generator
/// `s · 1664525 + 1013904223` reduced modulo `2^32`, so with an odd multiplier
/// and an odd increment the state's lowest bit flips at every step — no bit of
/// it is dropped — and the state stays below `2^32`.
pub proof fn lemma_the_state_is_the_generator(state: u32)
    ensures
        next_state(state) as int == (state as int * 1664525 + 1013904223) % 4294967296,
        next_state(state) % 2 != state % 2,
{
    let full = state as int * 1664525 + 1013904223;
    let wrapped = full % 4294967296;
    vstd::arithmetic::div_mod::lemma_fundamental_div_mod(full, 4294967296);
    vstd::arithmetic::div_mod::lemma_mod_pos_bound(full, 4294967296);
    let q = full / 4294967296;
    assert(wrapped % 2 == full % 2) by {
        vstd::arithmetic::div_mod::lemma_fundamental_div_mod_converse(
            full,
            2,
            q * 2147483648 + wrapped / 2,
            wrapped % 2,
        );
        vstd::arithmetic::div_mod::lemma_fundamental_div_mod(wrapped, 2);
        vstd::arithmetic::div_mod::lemma_mod_pos_bound(wrapped, 2);
    }
    assert(full % 2 != state as int % 2) by {
        let h = state as int / 2;
        let r = state as int % 2;
        vstd::arithmetic::div_mod::lemma_fundamental_div_mod(state as int, 2);
        vstd::arithmetic::div_mod::lemma_mod_pos_bound(state as int, 2);
        assert(full == (h * 1664525 + (r * 1664525 + 1013904223) / 2) * 2 + (1 - r))
            by (nonlinear_arith)
            requires
                full == state as int * 1664525 + 1013904223,
                state as int == 2 * h + r,
                0 <= r < 2,
        ;
        vstd::arithmetic::div_mod::lemma_fundamental_div_mod_converse(
            full,
            2,
            h * 1664525 + (r * 1664525 + 1013904223) / 2,
            1 - r,
        );
    }
}

} // verus!
