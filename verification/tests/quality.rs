use nxe_plugins::pumice::quality::{max_latency, Quality, MAX_BLOCK, MIN_BLOCK, OVERLAP};

/// A host's rate in whole hertz; nonsense becomes zero, which has no size of
/// its own.
fn hz(rate: f32) -> u32 {
    if rate.is_finite() && rate > 0.0 {
        rate.round() as u32
    } else {
        0
    }
}

fn target_bin_hz(quality: Quality) -> f32 {
    48_000.0 / quality.reference_block() as f32
}

#[test]
fn the_block_table_holds() {
    let expected = [
        (Quality::Low, [1024, 1024, 2048, 4096]),
        (Quality::Normal, [2048, 2048, 4096, 8192]),
        (Quality::High, [4096, 4096, 8192, 16384]),
    ];
    let rates = [44_100.0, 48_000.0, 96_000.0, 192_000.0];

    for (quality, blocks) in expected {
        for (rate, block) in rates.iter().zip(blocks) {
            assert_eq!(quality.block(hz(*rate)), block, "{quality:?} at {rate} Hz");
        }
    }
}

#[test]
fn every_bin_width_is_within_ten_percent() {
    for rate in [44_100.0f32, 48_000.0, 96_000.0, 192_000.0] {
        for quality in Quality::ALL {
            let bin = rate / quality.block(hz(rate)) as f32;
            let error = (bin - target_bin_hz(quality)).abs() / target_bin_hz(quality);
            assert!(
                error <= 0.10,
                "{quality:?} at {rate} Hz: {bin} Hz is {:.1} % off",
                error * 100.0
            );
        }
    }
}

#[test]
fn latency_is_three_quarters_of_the_block() {
    assert_eq!(Quality::Normal.latency(hz(48_000.0)), 1536);
    assert_eq!(Quality::Low.latency(hz(48_000.0)), 768);
    assert_eq!(Quality::High.latency(hz(48_000.0)), 3072);
}

#[test]
fn no_step_at_any_rate_exceeds_the_maximum() {
    for rate in [8_000.0, 44_100.0, 48_000.0, 96_000.0, 192_000.0, 384_000.0] {
        for quality in Quality::ALL {
            assert!(quality.block(hz(rate)) <= MAX_BLOCK, "{quality:?} at {rate}");
            assert!(quality.block(hz(rate)) >= MIN_BLOCK, "{quality:?} at {rate}");
        }
    }
}

#[test]
fn a_nonsense_rate_does_not_panic() {
    for rate in [0.0, -1.0, f32::NAN, f32::INFINITY] {
        for quality in Quality::ALL {
            assert!(quality.block(hz(rate)) >= MIN_BLOCK);
        }
    }
}

#[test]
fn max_latency_is_the_high_step() {
    for rate in [44_100.0, 48_000.0, 96_000.0, 192_000.0] {
        assert_eq!(max_latency(hz(rate)), Quality::High.latency(hz(rate)));
    }
}

#[test]
fn the_extreme_rates_hit_the_clamps() {
    assert_eq!(Quality::Low.block(0), MIN_BLOCK);
    assert_eq!(Quality::High.block(0), MIN_BLOCK);
    assert_eq!(Quality::Low.block(1), MIN_BLOCK);
    assert_eq!(Quality::High.block(u32::MAX), MAX_BLOCK);
    assert_eq!(Quality::Low.block(u32::MAX), MAX_BLOCK);
}

#[test]
fn nearest_in_octaves_not_next_above() {
    // 96 kHz NORMAL: the ideal is 4096 exactly, so it stays there rather than
    // doubling. Just past half an octave above 4096 it does double.
    assert_eq!(Quality::Normal.block(96_000), 4096);
    // 4096 · √2 · 48000 / 2048 ≈ 135 764 Hz is the boundary.
    assert_eq!(Quality::Normal.block(135_764), 4096);
    assert_eq!(Quality::Normal.block(135_765), 8192);
    // And half an octave below 4096 it halves.
    assert_eq!(Quality::Normal.block(67_882), 2048);
    assert_eq!(Quality::Normal.block(67_883), 4096);
}

#[test]
fn the_steps_are_ordered_at_every_rate() {
    for rate in [1, 8_000, 22_050, 44_100, 48_000, 88_200, 96_000, 176_400, 192_000, 384_000] {
        let blocks: Vec<usize> = Quality::ALL.iter().map(|q| q.block(rate)).collect();
        assert!(blocks[0] <= blocks[1] && blocks[1] <= blocks[2], "{rate}: {blocks:?}");
    }
}

#[test]
fn a_higher_rate_never_gets_a_smaller_block() {
    let mut previous = 0;
    for rate in (0..400_000u32).step_by(997) {
        let block = Quality::Normal.block(rate);
        assert!(block >= previous, "{rate}");
        previous = block;
    }
}

#[test]
fn the_hop_is_a_quarter_and_the_latency_the_rest() {
    for rate in [44_100, 48_000, 96_000] {
        for quality in Quality::ALL {
            let block = quality.block(rate);
            assert_eq!(quality.hop(rate) * OVERLAP, block);
            assert_eq!(quality.latency(rate) + quality.hop(rate), block);
            assert!(block.is_power_of_two());
        }
    }
}

#[test]
fn the_index_follows_all() {
    for (index, quality) in Quality::ALL.iter().enumerate() {
        assert_eq!(quality.index(), index);
    }
    assert_eq!(Quality::default(), Quality::Normal);
    assert_eq!(Quality::Normal.reference_block(), 2048);
}
