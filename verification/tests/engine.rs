use nxe_plugins::pumice::engine::{
    chunk_length, dry_distance, dry_latency, dry_length, Mode, CHUNK, READ_OFFSET,
};
use nxe_plugins::pumice::nodes::{free_node, nth_enabled};
use nxe_plugins::pumice::plugin::{channels_to_process, LatencyReport};
use nxe_plugins::pumice::quality::Quality;
use nxe_plugins::pumice::stft::Stft;

#[test]
fn the_dry_line_is_sized_for_the_largest_block() {
    for rate in [44_100, 48_000, 96_000, 192_000] {
        assert_eq!(dry_length(rate), Quality::High.block(rate) + CHUNK + READ_OFFSET + 1);
    }
    assert_eq!(dry_length(48_000), 4096 + 256 + 2);
}

#[test]
fn the_dry_path_is_held_back_one_whole_block() {
    for rate in [44_100, 48_000, 96_000, 192_000] {
        for quality in Quality::ALL {
            let stft = Stft::new(rate, quality);
            assert_eq!(dry_latency(&stft), quality.block(rate));
            assert_eq!(dry_latency(&stft), stft.latency());
        }
    }
}

#[test]
fn chunks_tile_the_buffer() {
    for samples in [1, 255, 256, 257, 512, 1000] {
        let mut start = 0;
        let mut lengths = Vec::new();
        while start < samples {
            let length = chunk_length(samples, start);
            lengths.push(length);
            start += length;
        }
        assert_eq!(start, samples);
        assert!(lengths.iter().all(|length| *length <= CHUNK));
    }
    assert_eq!(chunk_length(1000, 768), 232);
    assert_eq!(chunk_length(1000, 0), 256);
}

#[test]
fn every_dry_read_fits_the_line() {
    for rate in [8_000, 44_100, 48_000, 96_000, 192_000, 384_000] {
        for quality in Quality::ALL {
            let latency = dry_latency(&Stft::new(rate, quality));
            for length in [1, 17, CHUNK] {
                for offset in 0..length {
                    let distance = dry_distance(latency, length, offset);
                    assert_eq!(distance, latency + length - offset);
                    assert!(distance + READ_OFFSET < dry_length(rate), "{quality:?} at {rate}");
                }
            }
        }
    }
}

#[test]
fn the_mode_defaults_to_adaptive() {
    assert_eq!(Mode::default(), Mode::Adaptive);
}

#[test]
fn the_host_is_told_only_when_the_latency_moves() {
    let mut report = LatencyReport::new();
    assert_eq!(report.reported(), None);
    assert_eq!(report.initialize(1536), 1536);
    assert_eq!(report.update(1536), None);
    assert_eq!(report.update(3072), Some(3072));
    assert_eq!(report.update(3072), None);
    assert_eq!(report.reported(), Some(3072));

    let mut fresh = LatencyReport::new();
    assert_eq!(fresh.update(768), Some(768));
}

#[test]
fn a_mono_layout_takes_one_channel() {
    assert_eq!(channels_to_process(1, 2), 1);
    assert_eq!(channels_to_process(2, 2), 2);
    assert_eq!(channels_to_process(2, 1), 1);
    assert_eq!(channels_to_process(0, 2), 1);
    assert_eq!(channels_to_process(8, 8), 2);
    assert_eq!(channels_to_process(2, 0), 0);
}

#[test]
fn a_click_takes_the_first_free_node_and_evicts_nothing() {
    assert_eq!(free_node(&[false; 6]), Some(0));
    assert_eq!(free_node(&[true, true, false, true, false, false]), Some(2));
    assert_eq!(free_node(&[true; 6]), None);
}

#[test]
fn the_figure_counts_only_the_nodes_that_are_on() {
    let enabled = [false, true, false, true, true, false];
    assert_eq!(nth_enabled(&enabled, 0), Some(1));
    assert_eq!(nth_enabled(&enabled, 1), Some(3));
    assert_eq!(nth_enabled(&enabled, 2), Some(4));
    assert_eq!(nth_enabled(&enabled, 3), None);
    assert_eq!(nth_enabled(&[false; 6], 0), None);
}
