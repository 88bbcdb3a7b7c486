use nxe_plugins::sparkleur::bands::{
    audible, shown, soloing, tilt_of, Tilt, AIR_BAND, BAND_COUNT, BODY_BAND, DEFAULT_BAND,
};
use nxe_plugins::sparkleur::crossover::{correction_count, correction_edge, lower_edge, upper_edge, EDGE_COUNT};

fn correction_edges(band: usize) -> Vec<usize> {
    (0..correction_count(band)).map(|k| correction_edge(band, k)).collect()
}
use nxe_plugins::sparkleur::noise::Noise;

#[test]
fn a_solo_wins_over_a_hover_and_presence_is_the_fallback() {
    let solo = [false; BAND_COUNT];
    assert_eq!(shown(&solo, None), DEFAULT_BAND);
    assert_eq!(shown(&solo, Some(0)), 0);
    // Out of range is the fallback rather than a panic.
    assert_eq!(shown(&solo, Some(99)), DEFAULT_BAND);
}

#[test]
fn a_solo_is_what_the_panel_shows() {
    let solo = [false, false, true, false, true];
    assert_eq!(shown(&solo, Some(0)), 2);
    assert_eq!(shown(&solo, None), 2);
}

#[test]
fn soloing_routes_only_the_soloed_bands() {
    let mut solo = [false; BAND_COUNT];
    assert!(!soloing(&solo));
    assert!((0..BAND_COUNT).all(|band| audible(&solo, band)));

    solo[0] = true;
    assert!(soloing(&solo));
    assert!(audible(&solo, 0));
    assert!((1..BAND_COUNT).all(|band| !audible(&solo, band)));
    // The layer rides on the top band, so it goes with it.
    assert!(!audible(&solo, AIR_BAND));
}

#[test]
fn the_tilts_lean_on_their_own_bands() {
    assert_eq!(tilt_of(BODY_BAND), Tilt::Body);
    assert_eq!(tilt_of(AIR_BAND), Tilt::Air);
    for band in [0, 2, 3] {
        assert_eq!(tilt_of(band), Tilt::Neither);
    }
}

#[test]
fn every_band_meets_every_boundary_once() {
    assert_eq!(correction_edges(0), vec![1, 2, 3]);
    assert_eq!(correction_edges(1), vec![2, 3]);
    assert_eq!(correction_edges(2), vec![3]);
    assert!(correction_edges(3).is_empty());
    assert!(correction_edges(4).is_empty());

    for band in 0..BAND_COUNT {
        let mut met: Vec<usize> = (0..=band.min(EDGE_COUNT - 1)).collect();
        met.extend(correction_edges(band));
        assert_eq!(met, vec![0, 1, 2, 3], "band {band}");
    }
}

#[test]
fn the_regions_meet() {
    assert_eq!(lower_edge(0), None);
    assert_eq!(upper_edge(BAND_COUNT - 1), None);
    for band in 0..BAND_COUNT - 1 {
        assert_eq!(upper_edge(band), lower_edge(band + 1));
        assert_eq!(upper_edge(band), Some(band));
    }
}

#[test]
fn the_noise_is_the_same_every_run() {
    let mut noise = Noise::new();
    let first = noise.next();
    // 0x12345678 · 1664525 + 1013904223, modulo 2^32, is 0x75432777.
    assert_eq!(first, 0x7543_2777 >> 8);
    let mut again = Noise::new();
    assert_eq!(again.next(), first);

    let samples: Vec<f32> = (0..1000)
        .map(|_| noise.next() as f32 / (1 << 23) as f32 * 2.0 - 1.0)
        .collect();
    assert!(samples.iter().all(|sample| (-1.0..3.0).contains(sample)));
}
