use nxe_plugins::pumice::quality::Quality;
use nxe_plugins::pumice::stft::{Frame, Stft, MAX_BINS, MAX_CHANNELS};

/// The samples, counted from the first, after which a frame runs when the
/// input arrives in pieces of `chunk`.
fn frame_times(quality: Quality, rate: u32, chunk: usize, length: usize) -> Vec<usize> {
    let mut stft = Stft::new(rate, quality);
    let mut times = Vec::new();
    let mut start = 0;
    while start < length {
        let end = (start + chunk).min(length);
        for sample in start..end {
            if stft.tick().frame {
                times.push(sample);
            }
        }
        start = end;
    }
    times
}

#[test]
fn the_reported_latency_is_the_engines() {
    for rate in [44_100, 48_000, 96_000, 192_000] {
        for quality in Quality::ALL {
            let stft = Stft::new(rate, quality);
            assert_eq!(stft.latency(), quality.block(rate));
        }
    }
}

#[test]
fn a_quality_change_restarts_the_clock() {
    let rate = 48_000;
    let mut stft = Stft::new(rate, Quality::Normal);
    for _ in 0..4096 + 7 {
        stft.tick();
    }
    stft.set_quality(Quality::High);
    assert_eq!(stft.block(), Quality::High.block(rate));
    assert_eq!(stft.latency(), Quality::High.block(rate));
    assert_eq!(stft.tick().slot, 0);
}

#[test]
fn the_same_quality_keeps_the_clock_running() {
    let mut stft = Stft::new(48_000, Quality::Low);
    for _ in 0..10 {
        stft.tick();
    }
    stft.set_quality(Quality::Low);
    assert_eq!(stft.tick().slot, 10);
}

#[test]
fn a_frame_runs_every_hop_whatever_the_host_block_size() {
    let rate = 48_000;
    let quality = Quality::Normal;
    let reference = frame_times(quality, rate, 512, 2048 * 5);
    let hop = quality.hop(rate);
    assert_eq!(reference.len(), 2048 * 5 / hop);
    for (index, time) in reference.iter().enumerate() {
        assert_eq!(*time, (index + 1) * hop - 1);
    }
    for chunk in [1, 64, 4096] {
        assert_eq!(frame_times(quality, rate, chunk, 2048 * 5), reference, "{chunk}");
    }
}

#[test]
fn the_ring_wraps_at_the_block() {
    let mut stft = Stft::new(48_000, Quality::Low);
    let block = stft.block();
    for expected in 0..block * 2 + 3 {
        assert_eq!(stft.tick().slot, expected % block);
    }
    // The frame starts at the oldest sample and reads round the ring.
    assert_eq!(stft.ring_index(0), 3);
    assert_eq!(stft.ring_index(block - 3), 0);
    assert_eq!(stft.ring_index(block - 1), 2);
}

#[test]
fn reset_empties_the_ring() {
    let mut stft = Stft::new(48_000, Quality::Low);
    for _ in 0..100 {
        stft.tick();
    }
    stft.reset();
    assert_eq!(stft.quality(), Quality::Low);
    let tick = stft.tick();
    assert_eq!(tick.slot, 0);
    assert!(!tick.frame);
}

#[test]
fn both_channels_share_one_frame_shape() {
    let stft = Stft::new(48_000, Quality::Normal);
    let frame = Frame::new(Stft::channels_used(2), stft.bins());
    assert_eq!(frame.channels(), 2);
    assert_eq!(frame.bins(), stft.block() / 2 + 1);
    assert!(frame.holds(0) && frame.holds(1) && !frame.holds(2));
}

#[test]
fn no_channels_is_not_a_panic() {
    assert_eq!(Stft::channels_used(0), 0);
    assert_eq!(Stft::channels_used(1), 1);
    assert_eq!(Stft::channels_used(8), MAX_CHANNELS);
    let frame = Frame::new(0, 1025);
    assert!(!frame.holds(0));
}

#[test]
fn the_largest_frame_fits_the_bins() {
    let stft = Stft::new(192_000, Quality::High);
    assert_eq!(stft.bins(), MAX_BINS);
}
