//! What the plugin decides about the host: when to tell it the latency moved,
//! and how many channels to hand the engine.

use vstd::prelude::*;
use crate::pumice::stft::MAX_CHANNELS;

verus! {

/// The latency the host was last told about.
///
/// Telling a host its delay compensation is stale is expensive — most rebuild
/// the graph — so it is told only when the latency actually moved.
pub struct LatencyReport {
    reported: Option<usize>,
}

impl LatencyReport {
    /// What the host was last told, if anything.
    pub closed spec fn spec_reported(&self) -> Option<usize> {
        self.reported
    }

    /// Nothing told yet, so the first update always reports.
    pub fn new() -> (report: LatencyReport)
        ensures
            report.spec_reported() == None::<usize>,
    {
        LatencyReport { reported: None }
    }

    /// At initialisation the host is always told.
    pub fn initialize(&mut self, latency: usize) -> (told: usize)
        ensures
            told == latency,
            final(self).spec_reported() == Some(latency),
    {
        self.reported = Some(latency);
        latency
    }

    pub fn reported(&self) -> (reported: Option<usize>)
        ensures
            reported == self.spec_reported(),
    {
        self.reported
    }

    /// Once per block: the latency to tell the host, or nothing when it has
    /// not moved since the last time.
    pub fn update(&mut self, latency: usize) -> (told: Option<usize>)
        ensures
            told == if old(self).spec_reported() == Some(latency) {
                None::<usize>
            } else {
                Some(latency)
            },
            final(self).spec_reported() == Some(latency),
    {
        let changed = match self.reported {
            Some(reported) => reported != latency,
            None => true,
        };
        self.reported = Some(latency);
        if changed {
            Some(latency)
        } else {
            None
        }
    }
}

/// How many of a buffer's channels the engine is handed.
///
/// A mono layout hands back one channel, and taking more would read undefined
/// data; the layout's count is trusted, but never below one and never past
/// what the buffer or the engine has.
pub fn channels_to_process(layout_channels: usize, buffer_channels: usize) -> (count: usize)
    ensures
        count == min(
            min(max(min(layout_channels as int, buffer_channels as int), 1), buffer_channels as int),
            MAX_CHANNELS as int,
        ),
        count <= buffer_channels,
        count <= MAX_CHANNELS,
        buffer_channels > 0 ==> count >= 1,
{
    let mut used = if layout_channels < buffer_channels {
        layout_channels
    } else {
        buffer_channels
    };
    if used < 1 {
        used = 1;
    }
    if used > buffer_channels {
        used = buffer_channels;
    }
    if used > MAX_CHANNELS {
        used = MAX_CHANNELS;
    }
    used
}

/// The smaller of two integers.
pub open spec fn min(a: int, b: int) -> int {
    if a < b {
        a
    } else {
        b
    }
}

/// The larger of two integers.
pub open spec fn max(a: int, b: int) -> int {
    if a < b {
        b
    } else {
        a
    }
}

} // verus!
