//! How big the transform is, and therefore how much latency the plugin costs.
//!
//! The size follows the sample rate so that the bin width stays put: each step
//! aims at a bin width of 48 kHz's own (`48000 / 1024`, `/ 2048`, `/ 4096`),
//! and a rate is given the power of two nearest to `rate / target`, nearest in
//! octaves. The targets are exact ratios, so the choice is made in whole
//! numbers: the ideal size is `rate · reference / 48000`, and it rounds to
//! `2^e` exactly when `2^(e − ½) ≤ ideal < 2^(e + ½)`, which squared is
//! `2^(2e − 1) · 48000² ≤ (rate · reference)² < 2^(2e + 1) · 48000²`.

use vstd::prelude::*;

verus! {

/// The largest transform ever built: 192 kHz at [`Quality::High`].
pub const MAX_BLOCK: usize = 16384;

/// The smallest transform, so a nonsense rate cannot produce a degenerate one.
pub const MIN_BLOCK: usize = 256;

/// Hop is `block / OVERLAP`: 75 % overlap.
pub const OVERLAP: usize = 4;

/// The rate whose bin widths the three steps aim for, in Hz.
pub const REFERENCE_RATE: u32 = 48000;

/// `2^n`.
pub open spec fn two_to(n: nat) -> nat
    decreases n,
{
    if n == 0 {
        1
    } else {
        2 * two_to((n - 1) as nat)
    }
}

/// `2^n` grows with `n`.
pub proof fn lemma_two_to_monotone(a: nat, b: nat)
    requires
        a <= b,
    ensures
        two_to(a) <= two_to(b),
        two_to(a) >= 1,
    decreases b,
{
    if b > a {
        lemma_two_to_monotone(a, (b - 1) as nat);
    } else if a > 0 {
        lemma_two_to_monotone((a - 1) as nat, (a - 1) as nat);
    }
}

/// The three steps a user can choose between.
#[derive(Clone, Copy, PartialEq, Eq, Structural, Debug)]
pub enum Quality {
    Low,
    Normal,
    High,
}

impl Default for Quality {
    fn default() -> (quality: Quality)
        ensures
            quality == Quality::Normal,
    {
        Quality::Normal
    }
}

/// Whether the ideal size `rate · reference / 48000` reaches `2^(e − ½)`:
/// that is, rounds in octaves to `2^e` or to something larger.
pub open spec fn reaches(rate: u32, reference: nat, e: nat) -> bool {
    two_to((2 * e - 1) as nat) * (REFERENCE_RATE * REFERENCE_RATE) <= (rate * reference) * (
    rate * reference)
}

/// What [`Quality::block`] returns: the power of two nearest, in octaves, to
/// `rate · reference / 48000`, held inside `MIN_BLOCK ..= MAX_BLOCK`
/// (`2^8 ..= 2^14`). A rate of zero has no size of its own and gets the
/// smallest.
pub open spec fn is_block_for(block: nat, rate: u32, reference: nat) -> bool {
    exists|e: nat|
        #![trigger two_to(e)]
        8 <= e <= 14 && block == two_to(e) && (e > 8 ==> reaches(rate, reference, e)) && (e < 14
            ==> !reaches(rate, reference, e + 1))
}

/// There is one such size, and it grows with `rate · reference`: a higher
/// rate or a finer step never gets a smaller transform.
pub proof fn lemma_block_order(b1: nat, rate1: u32, ref1: nat, b2: nat, rate2: u32, ref2: nat)
    requires
        is_block_for(b1, rate1, ref1),
        is_block_for(b2, rate2, ref2),
        rate1 * ref1 <= rate2 * ref2,
    ensures
        b1 <= b2,
{
    let e1 = choose|e: nat|
        #![trigger two_to(e)]
        8 <= e <= 14 && b1 == two_to(e) && (e > 8 ==> reaches(rate1, ref1, e)) && (e < 14
            ==> !reaches(rate1, ref1, e + 1));
    let e2 = choose|e: nat|
        #![trigger two_to(e)]
        8 <= e <= 14 && b2 == two_to(e) && (e > 8 ==> reaches(rate2, ref2, e)) && (e < 14
            ==> !reaches(rate2, ref2, e + 1));
    if e1 > e2 {
        let s1 = rate1 * ref1;
        let s2 = rate2 * ref2;
        assert(s1 * s1 <= s2 * s2) by (nonlinear_arith)
            requires
                0 <= s1 <= s2,
        ;
        lemma_two_to_monotone((2 * e2 + 1) as nat, (2 * e1 - 1) as nat);
        let d = REFERENCE_RATE * REFERENCE_RATE;
        assert(two_to((2 * e2 + 1) as nat) * d <= two_to((2 * e1 - 1) as nat) * d)
            by (nonlinear_arith)
            requires
                two_to((2 * e2 + 1) as nat) <= two_to((2 * e1 - 1) as nat),
                d >= 0,
        ;
        assert(false);
    }
    lemma_two_to_monotone(e1, e2);
}

proof fn lemma_block_exists_from(rate: u32, reference: nat, e: nat)
    requires
        8 <= e <= 14,
        e > 8 ==> reaches(rate, reference, e),
    ensures
        exists|block: nat| is_block_for(block, rate, reference),
    decreases 14 - e,
{
    if e < 14 && reaches(rate, reference, e + 1) {
        lemma_block_exists_from(rate, reference, e + 1);
    } else {
        assert(is_block_for(two_to(e), rate, reference));
    }
}

/// Every rate has its transform size.
pub proof fn lemma_block_exists(rate: u32, reference: nat)
    ensures
        exists|block: nat| is_block_for(block, rate, reference),
{
    lemma_block_exists_from(rate, reference, 8);
}

impl Quality {
    /// The transform size of this step at this rate: the one size
    /// [`is_block_for`] describes.
    pub open spec fn spec_block(self, sample_rate: u32) -> nat {
        choose|block: nat| is_block_for(block, sample_rate, self.spec_reference_block())
    }

    /// What [`Quality::latency`] returns: `block − block / OVERLAP`.
    pub open spec fn spec_latency(self, sample_rate: u32) -> nat {
        (self.spec_block(sample_rate) - self.spec_block(sample_rate) / (OVERLAP as nat)) as nat
    }

    /// Every step at every rate lands inside `MIN_BLOCK ..= MAX_BLOCK`, on a
    /// multiple of the overlap, and its three-quarter latency (`block − hop`)
    /// is less than one block.
    pub proof fn lemma_latency_is_bounded(self, sample_rate: u32)
        ensures
            MIN_BLOCK <= self.spec_block(sample_rate) <= MAX_BLOCK,
            self.spec_block(sample_rate) % (OVERLAP as nat) == 0,
            self.spec_latency(sample_rate) < self.spec_block(sample_rate),
            self.spec_latency(sample_rate) + self.spec_block(sample_rate) / (OVERLAP as nat)
                == self.spec_block(sample_rate),
    {
        let reference = self.spec_reference_block();
        lemma_block_exists(sample_rate, reference);
        let block = self.spec_block(sample_rate);
        let e = choose|e: nat|
            #![trigger two_to(e)]
            8 <= e <= 14 && block == two_to(e) && (e > 8 ==> reaches(sample_rate, reference, e))
                && (e < 14 ==> !reaches(sample_rate, reference, e + 1));
        lemma_two_to_values();
        lemma_two_to_monotone(8, e);
        lemma_two_to_monotone(e, 14);
        lemma_two_to_is_multiple_of_four(e);
    }

    /// Every step, lowest first.
    pub const ALL: [Quality; 3] = [Quality::Low, Quality::Normal, Quality::High];

    /// The position of this step in [`Quality::ALL`].
    pub open spec fn spec_index(self) -> nat {
        match self {
            Quality::Low => 0,
            Quality::Normal => 1,
            Quality::High => 2,
        }
    }

    /// The transform size this step takes at 48 kHz, where its target bin
    /// width (`48000 / reference`) lands on a power of two exactly.
    pub open spec fn spec_reference_block(self) -> nat {
        match self {
            Quality::Low => 1024,
            Quality::Normal => 2048,
            Quality::High => 4096,
        }
    }

    pub fn index(self) -> (index: usize)
        ensures
            index == self.spec_index(),
    {
        match self {
            Quality::Low => 0,
            Quality::Normal => 1,
            Quality::High => 2,
        }
    }

    /// The size this step takes at 48 kHz. The target bin width in Hz is
    /// `48000 / reference_block`.
    pub fn reference_block(self) -> (block: usize)
        ensures
            block == self.spec_reference_block(),
    {
        match self {
            Quality::Low => 1024,
            Quality::Normal => 2048,
            Quality::High => 4096,
        }
    }

    /// The transform size at this rate (in whole Hz): the power of two
    /// nearest to `rate / target`, nearest in octaves rather than next-above,
    /// and never outside `MIN_BLOCK ..= MAX_BLOCK`.
    pub fn block(self, sample_rate: u32) -> (block: usize)
        ensures
            is_block_for(block as nat, sample_rate, self.spec_reference_block()),
            block == self.spec_block(sample_rate),
            MIN_BLOCK <= block <= MAX_BLOCK,
            block % OVERLAP == 0,
    {
        let reference = self.reference_block() as u128;
        assert(sample_rate as u128 * reference <= 4294967295u128 * 4096) by (nonlinear_arith)
            requires
                sample_rate <= 4294967295u128,
                reference <= 4096,
        ;
        let scaled = sample_rate as u128 * reference;
        assert(scaled * scaled <= 17592186040320u128 * 17592186040320u128) by (nonlinear_arith)
            requires
                scaled <= 17592186040320u128,
        ;
        let squared = scaled * scaled;
        let denominator: u128 = 48000 * 48000;
        let mut exponent: usize = 8;
        let mut block: usize = 256;
        // The boundary between `2^e` and `2^(e+1)`: `2^(2e+1) · 48000²`.
        let mut boundary: u128 = 131072 * denominator;
        proof {
            lemma_two_to_values();
        }
        while exponent < 14 && squared >= boundary
            invariant
                8 <= exponent <= 14,
                block == two_to(exponent as nat),
                boundary == two_to((2 * exponent + 1) as nat) * (48000 * 48000),
                denominator == 48000 * 48000,
                squared == (sample_rate * self.spec_reference_block()) * (sample_rate
                    * self.spec_reference_block()),
                exponent > 8 ==> reaches(sample_rate, self.spec_reference_block(), exponent as nat),
                exponent <= 14 ==> block <= 16384,
            decreases 14 - exponent,
        {
            proof {
                let e = exponent as nat;
                assert(two_to(e + 1) == 2 * two_to(e));
                assert(two_to(2 * e + 2) == 2 * two_to(2 * e + 1));
                assert(two_to(2 * e + 3) == 2 * two_to(2 * e + 2));
                let low = two_to((2 * e + 1) as nat);
                let high = two_to((2 * e + 3) as nat);
                assert(boundary * 4 == high * (48000 * 48000)) by (nonlinear_arith)
                    requires
                        boundary == low * (48000 * 48000),
                        high == 4 * low,
                ;
                assert(reaches(sample_rate, self.spec_reference_block(), e + 1));
                lemma_two_to_values();
                lemma_two_to_monotone(e + 1, 14);
                lemma_two_to_monotone((2 * e + 3) as nat, 29);
            }
            exponent = exponent + 1;
            block = block * 2;
            boundary = boundary * 4;
        }
        proof {
            let e = exponent as nat;
            assert(8 <= e <= 14 && block == two_to(e) && (e > 8 ==> reaches(
                sample_rate,
                self.spec_reference_block(),
                e,
            )) && (e < 14 ==> !reaches(sample_rate, self.spec_reference_block(), e + 1)));
            lemma_two_to_values();
            lemma_two_to_monotone(8, e);
            lemma_two_to_monotone(e, 14);
            lemma_two_to_is_multiple_of_four(e);
            assert(is_block_for(block as nat, sample_rate, self.spec_reference_block()));
            let chosen = self.spec_block(sample_rate);
            assert(is_block_for(chosen, sample_rate, self.spec_reference_block()));
            lemma_block_order(
                block as nat,
                sample_rate,
                self.spec_reference_block(),
                chosen,
                sample_rate,
                self.spec_reference_block(),
            );
            lemma_block_order(
                chosen,
                sample_rate,
                self.spec_reference_block(),
                block as nat,
                sample_rate,
                self.spec_reference_block(),
            );
        }
        block
    }

    /// One hop at this rate: a quarter of the block.
    pub fn hop(self, sample_rate: u32) -> (hop: usize)
        ensures
            hop * OVERLAP == self.spec_block(sample_rate),
    {
        self.block(sample_rate) / OVERLAP
    }

    /// This step's three-quarter latency, in samples: `block − hop`. The
    /// transform's output, and what the host is told, is a whole block late
    /// (`Stft::latency`).
    pub fn latency(self, sample_rate: u32) -> (latency: usize)
        ensures
            latency == self.spec_latency(sample_rate),
    {
        let block = self.block(sample_rate);
        block - block / OVERLAP
    }
}

/// The powers of two the block sizes are built from.
proof fn lemma_two_to_values()
    ensures
        two_to(2) == 4,
        two_to(8) == 256,
        two_to(14) == 16384,
        two_to(17) == 131072,
        two_to(29) == 536870912,
{
    reveal_with_fuel(two_to, 30);
}

/// The largest three-quarter latency (`block − hop`) of any step at this
/// rate: High's, since the steps are ordered.
pub fn max_latency(sample_rate: u32) -> (latency: usize)
    ensures
        latency == Quality::High.spec_latency(sample_rate),
        forall|quality: Quality| quality.spec_latency(sample_rate) <= latency,
{
    let all = Quality::ALL;
    let mut longest: usize = 0;
    let mut index: usize = 0;
    let ghost mut best: int = 0;
    while index < 3
        invariant
            0 <= index <= 3,
            all == Quality::ALL,
            forall|i: int| 0 <= i < index ==> all[i].spec_latency(sample_rate) <= longest,
            index > 0 ==> 0 <= best < index && all[best].spec_latency(sample_rate) == longest,
        decreases 3 - index,
    {
        let latency = all[index].latency(sample_rate);
        if latency > longest || index == 0 {
            longest = latency;
            proof {
                best = index as int;
            }
        }
        index = index + 1;
    }
    proof {
        lemma_steps_are_ordered(sample_rate);
        assert(all[0] == Quality::Low && all[1] == Quality::Normal && all[2] == Quality::High);
        assert forall|quality: Quality| quality.spec_latency(sample_rate) <= longest by {
            match quality {
                Quality::Low => assert(all[0].spec_latency(sample_rate) <= longest),
                Quality::Normal => assert(all[1].spec_latency(sample_rate) <= longest),
                Quality::High => assert(all[2].spec_latency(sample_rate) <= longest),
            }
        }
    }
    longest
}

/// The steps are ordered at every rate: `Low`'s transform is never larger than
/// `Normal`'s, nor `Normal`'s than `High`'s — so neither is the latency.
pub proof fn lemma_steps_are_ordered(sample_rate: u32)
    ensures
        Quality::Low.spec_block(sample_rate) <= Quality::Normal.spec_block(sample_rate),
        Quality::Normal.spec_block(sample_rate) <= Quality::High.spec_block(sample_rate),
        Quality::Low.spec_latency(sample_rate) <= Quality::Normal.spec_latency(sample_rate),
        Quality::Normal.spec_latency(sample_rate) <= Quality::High.spec_latency(sample_rate),
{
    lemma_block_exists(sample_rate, 1024);
    lemma_block_exists(sample_rate, 2048);
    lemma_block_exists(sample_rate, 4096);
    let low = Quality::Low.spec_block(sample_rate);
    let normal = Quality::Normal.spec_block(sample_rate);
    let high = Quality::High.spec_block(sample_rate);
    assert(sample_rate * 1024 <= sample_rate * 2048) by (nonlinear_arith);
    assert(sample_rate * 2048 <= sample_rate * 4096) by (nonlinear_arith);
    lemma_block_order(low, sample_rate, 1024, normal, sample_rate, 2048);
    lemma_block_order(normal, sample_rate, 2048, high, sample_rate, 4096);
}

proof fn lemma_two_to_is_multiple_of_four(e: nat)
    requires
        e >= 2,
    ensures
        two_to(e) % 4 == 0,
    decreases e,
{
    if e == 2 {
        lemma_two_to_values();
    } else {
        lemma_two_to_is_multiple_of_four((e - 1) as nat);
    }
}

/// **The steps are an octave apart, starting at 2^10.** Each step's
/// reference size is `2^(10 + index)` — 1024, 2048, 4096 — so each step aims
/// at half the bin width of the one below it: 46.875, 23.4375 and 11.71875 Hz,
/// which are `48000 / 1024`, `/ 2048` and `/ 4096`.
pub proof fn lemma_references_are_octaves_apart(quality: Quality)
    ensures
        quality.spec_reference_block() == two_to(10 + quality.spec_index()),
        Quality::Normal.spec_reference_block() == 2 * Quality::Low.spec_reference_block(),
        Quality::High.spec_reference_block() == 2 * Quality::Normal.spec_reference_block(),
{
    reveal_with_fuel(two_to, 13);
}

/// **At 48 kHz every step lands on its power of two exactly**: the targets
/// are 48 kHz's own bin widths, so the transform there is `2^(10 + index)`
/// and the bin width is the target with nothing rounded.
pub proof fn lemma_48k_lands_exactly(quality: Quality)
    ensures
        quality.spec_block(48000) == two_to(10 + quality.spec_index()),
        quality.spec_block(48000) == quality.spec_reference_block(),
{
    lemma_references_are_octaves_apart(quality);
    let reference = quality.spec_reference_block();
    let e = 10 + quality.spec_index();
    let d = REFERENCE_RATE * REFERENCE_RATE;
    lemma_two_to_values();
    lemma_two_to_monotone(8, e);
    lemma_two_to_monotone(e, 14);
    reveal_with_fuel(two_to, 2);
    assert(two_to((2 * e) as nat) == two_to(e) * two_to(e)) by {
        lemma_two_to_adds(e, e);
    }
    assert(two_to((2 * e) as nat) == 2 * two_to((2 * e - 1) as nat));
    assert(two_to((2 * e + 1) as nat) == 2 * two_to((2 * e) as nat));
    let scaled = 48000 * reference;
    assert(scaled * scaled == d * two_to((2 * e) as nat)) by (nonlinear_arith)
        requires
            scaled == 48000 * reference,
            reference == two_to(e),
            two_to((2 * e) as nat) == two_to(e) * two_to(e),
            d == 48000 * 48000,
    ;
    assert(two_to((2 * e - 1) as nat) * d <= d * two_to((2 * e) as nat)) by (nonlinear_arith)
        requires
            two_to((2 * e) as nat) == 2 * two_to((2 * e - 1) as nat),
            d > 0,
    ;
    lemma_two_to_monotone(0, (2 * e) as nat);
    assert(two_to((2 * e + 1) as nat) * d > d * two_to((2 * e) as nat)) by (nonlinear_arith)
        requires
            two_to((2 * e + 1) as nat) == 2 * two_to((2 * e) as nat),
            two_to((2 * e) as nat) >= 1,
            d > 0,
    ;
    assert(reaches(48000, reference, e));
    assert(!reaches(48000, reference, e + 1));
    assert(is_block_for(two_to(e), 48000, reference));
    let chosen = quality.spec_block(48000);
    assert(is_block_for(chosen, 48000, reference));
    lemma_block_order(two_to(e), 48000, reference, chosen, 48000, reference);
    lemma_block_order(chosen, 48000, reference, two_to(e), 48000, reference);
}

/// `2^(a + b) == 2^a · 2^b`.
proof fn lemma_two_to_adds(a: nat, b: nat)
    ensures
        two_to(a + b) == two_to(a) * two_to(b),
    decreases b,
{
    if b > 0 {
        lemma_two_to_adds(a, (b - 1) as nat);
        let below = two_to((a + b - 1) as nat);
        assert(two_to(a + b) == 2 * below);
        assert(below == two_to(a) * two_to((b - 1) as nat));
        assert(two_to(b) == 2 * two_to((b - 1) as nat));
        assert(two_to(a) * two_to(b) == 2 * (two_to(a) * two_to((b - 1) as nat))) by (nonlinear_arith)
            requires
                two_to(b) == 2 * two_to((b - 1) as nat),
        ;
    } else {
        assert(two_to(0) == 1);
        assert(a + b == a);
    }
}

} // verus!
