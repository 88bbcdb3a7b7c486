//! The clock of the overlap-add buffering an FFT runs inside.
//!
//! The input ring holds the last `block` samples with the oldest at
//! `position`; every sample is written where the oldest was, and every `hop`
//! samples a frame is taken from the ring, oldest first. This module decides
//! all of that — which slot a sample goes to, when a frame runs, where a frame
//! starts — and nothing else: the samples and the transform are the caller's.
//!
//! All three steps are planned up front, so changing `QUALITY` while the
//! transport runs changes an index rather than allocating.

use vstd::prelude::*;
use vstd::arithmetic::div_mod::{lemma_fundamental_div_mod, lemma_fundamental_div_mod_converse};
use crate::pumice::quality::{Quality, OVERLAP, MAX_BLOCK, MIN_BLOCK};

verus! {

/// Pumice is 2→2 and 1→1, so two is the most there can be.
pub const MAX_CHANNELS: usize = 2;

/// Bins in the largest transform: a real FFT of `n` gives `n/2 + 1`.
pub const MAX_BINS: usize = MAX_BLOCK / 2 + 1;

/// Where a ring of `length` slots stands `n` steps after `position`.
pub open spec fn ring_after(position: nat, length: nat, n: nat) -> nat {
    (position + n) % length
}

/// How many frames run in the next `n` samples when `since` samples have
/// passed since the last one and a frame runs every `hop`.
pub open spec fn frames_within(since: nat, hop: nat, n: nat) -> nat {
    (since + n) / hop
}

/// What one sample does to the clock.
#[derive(Clone, Copy, PartialEq, Eq, Structural, Debug)]
pub struct Tick {
    /// The ring slot this sample's input goes into, and whose finished output
    /// it takes.
    pub slot: usize,
    /// Whether a frame runs after this sample.
    pub frame: bool,
}

/// The overlap-add buffering's clock, for every step at one rate.
pub struct Stft {
    sample_rate: u32,
    /// The transform size of each step, in the order of [`Quality::ALL`].
    blocks: [usize; 3],
    quality: Quality,
    position: usize,
    since_frame: usize,
}

impl Stft {
    #[verifier::type_invariant]
    spec fn well_formed(self) -> bool {
        &&& self.blocks@[0] == Quality::Low.spec_block(self.sample_rate)
        &&& self.blocks@[1] == Quality::Normal.spec_block(self.sample_rate)
        &&& self.blocks@[2] == Quality::High.spec_block(self.sample_rate)
        &&& forall|i: int|
            0 <= i < 3 ==> MIN_BLOCK <= #[trigger] self.blocks@[i] <= MAX_BLOCK && self.blocks@[i]
                % OVERLAP == 0
        &&& self.position < self.spec_block()
        &&& self.since_frame < self.spec_hop()
    }

    pub closed spec fn spec_sample_rate(&self) -> u32 {
        self.sample_rate
    }

    pub closed spec fn spec_quality(&self) -> Quality {
        self.quality
    }

    /// The slot the next sample goes into: the oldest sample in the ring.
    pub closed spec fn spec_position(&self) -> nat {
        self.position as nat
    }

    /// How many samples have passed since the last frame.
    pub closed spec fn spec_since_frame(&self) -> nat {
        self.since_frame as nat
    }

    pub closed spec fn spec_block(&self) -> nat {
        self.blocks@[self.quality.spec_index() as int] as nat
    }

    pub open spec fn spec_hop(&self) -> nat {
        self.spec_block() / (OVERLAP as nat)
    }

    /// The clock at `rate`, set to `quality`, with an empty ring.
    pub fn new(sample_rate: u32, quality: Quality) -> (stft: Stft)
        ensures
            stft.spec_sample_rate() == sample_rate,
            stft.spec_quality() == quality,
            stft.spec_block() == quality.spec_block(sample_rate),
            stft.spec_position() == 0,
            stft.spec_since_frame() == 0,
    {
        let low = Quality::Low.block(sample_rate);
        let normal = Quality::Normal.block(sample_rate);
        let high = Quality::High.block(sample_rate);
        let stft = Stft {
            sample_rate,
            blocks: [low, normal, high],
            quality,
            position: 0,
            since_frame: 0,
        };
        proof {
            assert(stft.blocks@[0] == low && stft.blocks@[1] == normal && stft.blocks@[2] == high);
        }
        stft
    }

    pub fn quality(&self) -> (quality: Quality)
        ensures
            quality == self.spec_quality(),
    {
        self.quality
    }

    /// The transform size of the current step.
    pub fn block(&self) -> (block: usize)
        ensures
            block == self.spec_block(),
            block == self.spec_quality().spec_block(self.spec_sample_rate()),
            MIN_BLOCK <= block <= MAX_BLOCK,
            block % OVERLAP == 0,
    {
        proof {
            use_type_invariant(self);
        }
        self.blocks[self.quality.index()]
    }

    /// Samples between frames: a quarter of the block.
    pub fn hop(&self) -> (hop: usize)
        ensures
            hop == self.spec_hop(),
            hop * OVERLAP == self.spec_block(),
            hop >= 1,
    {
        self.block() / OVERLAP
    }

    /// Bins in one frame of the current step: `block / 2 + 1`.
    pub fn bins(&self) -> (bins: usize)
        ensures
            bins == self.spec_block() / 2 + 1,
            bins <= MAX_BINS,
    {
        self.block() / 2 + 1
    }

    /// What is reported to the host: one whole block. An output sample is
    /// final only once every frame overlapping it has been added, and the last
    /// such frame ends one block later.
    pub fn latency(&self) -> (latency: usize)
        ensures
            latency == self.spec_block(),
            latency == self.spec_quality().spec_block(self.spec_sample_rate()),
            MIN_BLOCK <= latency <= MAX_BLOCK,
    {
        self.block()
    }

    /// Changing step clears the ring rather than rebuilding anything; staying
    /// on the same step changes nothing.
    pub fn set_quality(&mut self, quality: Quality)
        ensures
            final(self).spec_sample_rate() == old(self).spec_sample_rate(),
            final(self).spec_quality() == quality,
            final(self).spec_block() == quality.spec_block(old(self).spec_sample_rate()),
            quality == old(self).spec_quality() ==> final(self).spec_position() == old(self).spec_position() && final(self).spec_since_frame() == old(self).spec_since_frame(),
            quality != old(self).spec_quality() ==> final(self).spec_position() == 0 && final(self).spec_since_frame() == 0,
    {
        proof {
            use_type_invariant(&*self);
        }
        if quality == self.quality {
            return;
        }
        let blocks = self.blocks;
        *self = Stft { sample_rate: self.sample_rate, blocks, quality, position: 0, since_frame: 0 };
    }

    /// Back to an empty ring, on the same step.
    pub fn reset(&mut self)
        ensures
            final(self).spec_sample_rate() == old(self).spec_sample_rate(),
            final(self).spec_quality() == old(self).spec_quality(),
            final(self).spec_block() == old(self).spec_block(),
            final(self).spec_position() == 0,
            final(self).spec_since_frame() == 0,
    {
        proof {
            use_type_invariant(&*self);
        }
        let blocks = self.blocks;
        *self = Stft {
            sample_rate: self.sample_rate,
            blocks,
            quality: self.quality,
            position: 0,
            since_frame: 0,
        };
    }

    /// One sample: which slot it goes into, and whether a frame runs after it.
    pub fn tick(&mut self) -> (tick: Tick)
        ensures
            tick.slot == old(self).spec_position(),
            tick.frame <==> frames_within(old(self).spec_since_frame(), old(self).spec_hop(), 1)
                == 1,
            final(self).spec_position() == ring_after(
                old(self).spec_position(),
                old(self).spec_block(),
                1,
            ),
            final(self).spec_since_frame() == (old(self).spec_since_frame() + 1) % old(self).spec_hop(),
            final(self).spec_sample_rate() == old(self).spec_sample_rate(),
            final(self).spec_quality() == old(self).spec_quality(),
            final(self).spec_block() == old(self).spec_block(),
            final(self).spec_position() == (old(self).spec_position() + 1) % old(self).spec_block(),
            tick.frame <==> old(self).spec_since_frame() + 1 == old(self).spec_hop(),
    {
        proof {
            use_type_invariant(&*self);
        }
        let block = self.block();
        let hop = self.hop();
        let slot = self.position;
        let next = if slot + 1 == block {
            0
        } else {
            slot + 1
        };
        let passed = self.since_frame + 1;
        let frame = passed == hop;
        let since_frame = if frame {
            0
        } else {
            passed
        };
        let blocks = self.blocks;
        *self = Stft {
            sample_rate: self.sample_rate,
            blocks,
            quality: self.quality,
            position: next,
            since_frame,
        };
        proof {
            if slot + 1 < block {
                vstd::arithmetic::div_mod::lemma_small_mod((slot + 1) as nat, block as nat);
            }
            if passed < hop {
                vstd::arithmetic::div_mod::lemma_small_mod(passed as nat, hop as nat);
                vstd::arithmetic::div_mod::lemma_basic_div(passed as int, hop as int);
            } else {
                vstd::arithmetic::div_mod::lemma_div_by_self(hop as int);
            }
        }
        Tick { slot, frame }
    }

    /// Where the `offset`-th sample of a frame is read from, and its
    /// reconstruction added back to: the frame starts at the oldest sample.
    pub fn ring_index(&self, offset: usize) -> (index: usize)
        requires
            offset < self.spec_block(),
        ensures
            index == ring_after(self.spec_position(), self.spec_block(), offset as nat),
            index == (self.spec_position() + offset as nat) % self.spec_block(),
            index < self.spec_block(),
    {
        proof {
            use_type_invariant(self);
        }
        let block = self.block();
        let read = self.position + offset;
        proof {
            if read < block {
                vstd::arithmetic::div_mod::lemma_small_mod(read as nat, block as nat);
            } else {
                lemma_fundamental_div_mod_converse(read as int, block as int, 1, read - block);
            }
        }
        if read >= block {
            read - block
        } else {
            read
        }
    }

    /// How many channels of `available` the transform takes.
    pub fn channels_used(available: usize) -> (used: usize)
        ensures
            used == if available < MAX_CHANNELS {
                available
            } else {
                MAX_CHANNELS
            },
    {
        if available < MAX_CHANNELS {
            available
        } else {
            MAX_CHANNELS
        }
    }
}

/// One frame's shape: how many channels it carries and how many bins each.
#[derive(Clone, Copy, PartialEq, Eq, Structural, Debug)]
pub struct Frame {
    channels: usize,
    bins: usize,
}

impl Frame {
    pub closed spec fn spec_channels(&self) -> nat {
        self.channels as nat
    }

    pub closed spec fn spec_bins(&self) -> nat {
        self.bins as nat
    }

    pub fn new(channels: usize, bins: usize) -> (frame: Frame)
        ensures
            frame.spec_channels() == channels,
            frame.spec_bins() == bins,
    {
        Frame { channels, bins }
    }

    pub fn channels(&self) -> (channels: usize)
        ensures
            channels == self.spec_channels(),
    {
        self.channels
    }

    pub fn bins(&self) -> (bins: usize)
        ensures
            bins == self.spec_bins(),
    {
        self.bins
    }

    /// Whether channel `index` is in the frame. A channel that is not gives an
    /// empty slice rather than a panic: this runs on the audio thread.
    pub fn holds(&self, index: usize) -> (held: bool)
        ensures
            held <==> index < self.spec_channels(),
    {
        index < self.channels
    }
}

/// **The host's block size does not reach the clock.** Running `n` samples
/// and then `m` leaves the ring and the hop counter where running `n + m` at
/// once would, and runs the same number of frames in total — so however a
/// host cuts its buffers, the frames fall on the same samples.
pub proof fn lemma_chunking_is_invisible(
    position: nat,
    since: nat,
    block: nat,
    hop: nat,
    n: nat,
    m: nat,
)
    requires
        block > 0,
        hop > 0,
    ensures
        ring_after(ring_after(position, block, n), block, m) == ring_after(position, block, n + m),
        (since + n) % hop + m == (since + n + m) % hop + hop * frames_within((since + n) % hop, hop, m),
        frames_within(since, hop, n) + frames_within((since + n) % hop, hop, m) == frames_within(
            since,
            hop,
            n + m,
        ),
{
    split_count(position + n, block, m);
    split_count(since + n, hop, m);
}

/// `a + m` counted in wholes of `d` is `a`'s wholes plus those of its
/// remainder and `m`.
proof fn split_count(a: nat, d: nat, m: nat)
    requires
        d > 0,
    ensures
        (a % d + m) % d == (a + m) % d,
        a / d + (a % d + m) / d == (a + m) / d,
        a % d + m == (a + m) % d + d * ((a % d + m) / d),
{
    let q = a as int / d as int;
    let r = a as int % d as int;
    lemma_fundamental_div_mod(a as int, d as int);
    let q2 = (r + m) / d as int;
    let r2 = (r + m) % d as int;
    lemma_fundamental_div_mod(r + m, d as int);
    assert(a + m == (q + q2) * d + r2) by (nonlinear_arith)
        requires
            a == d * q + r,
            r + m == d * q2 + r2,
    ;
    vstd::arithmetic::div_mod::lemma_mod_pos_bound(r + m, d as int);
    lemma_fundamental_div_mod_converse((a + m) as int, d as int, q + q2, r2);
}

} // verus!
