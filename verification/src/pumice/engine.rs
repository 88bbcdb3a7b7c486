//! How the engine carries the dry path alongside the transform.
//!
//! The buffer a host hands over is replaced in place by the transform, so the
//! dry copy has to be taken first and read back afterwards at an offset that
//! depends on where in the buffer it was. Working a fixed chunk at a time
//! bounds that offset — and therefore the delay line — without asking the host
//! how big its buffers get.
//!
//! The wet path comes out of the transform one whole block late, so the dry
//! copy is held back by that whole block to line up with it, and the line is
//! sized for the largest block any step takes at the rate.

use vstd::prelude::*;
use crate::pumice::quality::{Quality, MAX_BLOCK, lemma_steps_are_ordered};
use crate::pumice::stft::Stft;

verus! {

/// How many samples the dry path is carried through at a time.
pub const CHUNK: usize = 256;

/// A delay line's most recent sample is read at one, so a delay of `L`
/// samples is read at `L + 1`.
pub const READ_OFFSET: usize = 1;

/// What decides that a bin is resonance rather than a note.
#[derive(Clone, Copy, PartialEq, Eq, Structural, Debug)]
pub enum Mode {
    /// A long-term map decides where, a short-term follower decides when, and
    /// a bin is only pulled when both agree.
    Adaptive,
    /// The short-term follower alone: the way out when the map is wrong for
    /// the material.
    Static,
}

impl Default for Mode {
    fn default() -> (mode: Mode)
        ensures
            mode == Mode::Adaptive,
    {
        Mode::Adaptive
    }
}

/// How long the dry delay line is, in samples, at this rate: the whole block
/// of the largest step, one chunk, the read offset and one more.
pub fn dry_length(sample_rate: u32) -> (length: usize)
    ensures
        length == Quality::High.spec_block(sample_rate) + CHUNK + READ_OFFSET + 1,
{
    let longest = Quality::High.block(sample_rate);
    longest + CHUNK + READ_OFFSET + 1
}

/// How far the dry path is held back: the transform's own latency, one whole
/// block of the current step, so that dry and wet line up to the sample.
pub fn dry_latency(stft: &Stft) -> (latency: usize)
    ensures
        latency == stft.spec_block(),
        latency == stft.spec_quality().spec_block(stft.spec_sample_rate()),
        latency <= MAX_BLOCK,
{
    stft.latency()
}

/// How long the chunk starting at `start` is, in a buffer of `samples`.
pub fn chunk_length(samples: usize, start: usize) -> (length: usize)
    requires
        start < samples,
    ensures
        length == if samples - start < CHUNK {
            (samples - start) as int
        } else {
            CHUNK as int
        },
        0 < length <= CHUNK,
        start + length <= samples,
{
    if samples - start < CHUNK {
        samples - start
    } else {
        CHUNK
    }
}

/// How far back in the dry line the input for sample `offset` of a chunk of
/// `length` sits, once the whole chunk has been written and the transform is
/// `latency` behind: `length − offset` writes back from the head, and
/// `latency` more.
pub fn dry_distance(latency: usize, length: usize, offset: usize) -> (distance: usize)
    requires
        offset < length <= CHUNK,
        latency <= MAX_BLOCK,
    ensures
        distance == latency + length - offset,
        latency + 1 <= distance <= latency + CHUNK,
{
    latency + length - offset
}

/// **The dry line holds every sample it is asked for**, at every step: a
/// read for sample `offset` of a chunk of `length`, held back by the whole
/// block of any step at this rate, lies at least the read offset short of the
/// line's end.
pub proof fn lemma_dry_reads_fit(sample_rate: u32, quality: Quality, length: nat, offset: nat)
    requires
        offset < length <= CHUNK,
    ensures
        quality.spec_block(sample_rate) + length - offset + READ_OFFSET < Quality::High.spec_block(
            sample_rate,
        ) + CHUNK + READ_OFFSET + 1,
{
    lemma_steps_are_ordered(sample_rate);
}

} // verus!
