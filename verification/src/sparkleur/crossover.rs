//! The shape of the crossover tree: which boundaries each band passes.
//!
//! Linkwitz-Riley 4th order, split four times, each time keeping the low half
//! and passing the rest on: band `b` is the low output of split `b` after the
//! high outputs of every split below it, and the top band is the high output
//! of all four. An LR4 pair sums to an allpass, so a band split off early has
//! missed the phase rotation of every split above it, and is run through those
//! splits' allpasses to catch up. Then every band has met every boundary
//! exactly once, and the sum telescopes to four allpasses in series: flat in
//! amplitude.

use vstd::prelude::*;
use crate::sparkleur::bands::BAND_COUNT;

verus! {

/// How many boundaries there are between the bands.
pub const EDGE_COUNT: usize = 4;

/// The boundaries whose splits `band` comes through in the tree, in order.
pub open spec fn spec_split_edges(band: nat) -> Seq<nat> {
    let through = if band < EDGE_COUNT {
        band + 1
    } else {
        EDGE_COUNT as nat
    };
    Seq::new(through, |edge: int| edge as nat)
}

/// The boundaries whose allpasses `band` is run through afterwards, in the
/// order the tree passes them: every boundary above the one it was split at.
pub open spec fn spec_correction_edges(band: nat) -> Seq<nat> {
    if band + 1 < EDGE_COUNT {
        Seq::new((EDGE_COUNT - band - 1) as nat, |i: int| (band + 1 + i) as nat)
    } else {
        Seq::empty()
    }
}

/// How many corrections `band` needs: one allpass for every boundary above
/// the split it came out of. SUB needs three, BODY two, MID one, and the top
/// two bands none.
pub fn correction_count(band: usize) -> (count: usize)
    requires
        band < BAND_COUNT,
    ensures
        count == spec_correction_edges(band as nat).len(),
{
    if band + 1 < EDGE_COUNT {
        EDGE_COUNT - band - 1
    } else {
        0
    }
}

/// The boundary of `band`'s `k`-th correction, in the order the tree passes
/// them. Block rate, and allocation-free: the coefficients are built from it.
pub fn correction_edge(band: usize, k: usize) -> (edge: usize)
    requires
        band < BAND_COUNT,
        k < spec_correction_edges(band as nat).len(),
    ensures
        edge == spec_correction_edges(band as nat)[k as int],
        edge < EDGE_COUNT,
{
    band + 1 + k
}

/// **Every band meets every boundary exactly once**, lowest first: the
/// splits it came through followed by the corrections it is run through are
/// the four boundaries in order. This is what makes the five bands sum to
/// four allpasses in series — flat — rather than ripple.
pub proof fn lemma_every_band_meets_every_boundary(band: nat)
    requires
        band < BAND_COUNT,
    ensures
        spec_split_edges(band) + spec_correction_edges(band) =~= Seq::new(
            EDGE_COUNT as nat,
            |edge: int| edge as nat,
        ),
{
    let whole = spec_split_edges(band) + spec_correction_edges(band);
    let all = Seq::new(EDGE_COUNT as nat, |edge: int| edge as nat);
    assert(whole.len() == all.len());
    assert forall|i: int| 0 <= i < all.len() implies whole[i] == all[i] by {}
}

/// The boundary below `band`, if it has one.
pub open spec fn spec_lower_edge(band: nat) -> Option<usize> {
    if band == 0 {
        None
    } else {
        Some((band - 1) as usize)
    }
}

/// The boundary above `band`, if it has one.
pub open spec fn spec_upper_edge(band: nat) -> Option<usize> {
    if band + 1 >= BAND_COUNT {
        None
    } else {
        Some(band as usize)
    }
}

/// The boundary below `band`, if it has one: the bottom band runs down to
/// whatever the axis or the detector takes as the lowest frequency, since the
/// crossover has no boundary there.
pub fn lower_edge(band: usize) -> (edge: Option<usize>)
    requires
        band < BAND_COUNT,
    ensures
        edge == spec_lower_edge(band as nat),
{
    if band == 0 {
        None
    } else {
        Some(band - 1)
    }
}

/// The boundary above `band`, if it has one: the top band runs up to the
/// highest frequency, since there is no boundary above it.
pub fn upper_edge(band: usize) -> (edge: Option<usize>)
    requires
        band < BAND_COUNT,
    ensures
        edge == spec_upper_edge(band as nat),
{
    if band == BAND_COUNT - 1 {
        None
    } else {
        Some(band)
    }
}

/// **The regions meet.** Neighbouring bands share the boundary between them,
/// so no frequency falls between two regions; each boundary is the top of the
/// band below it and the bottom of the band above; and only the outer bands
/// run off the ends.
pub proof fn lemma_regions_meet(band: nat)
    requires
        band < BAND_COUNT,
    ensures
        band + 1 < BAND_COUNT ==> spec_upper_edge(band) == spec_lower_edge(band + 1),
        band + 1 < BAND_COUNT ==> spec_upper_edge(band) == Some(band as usize),
        spec_lower_edge(band) is None <==> band == 0,
        spec_upper_edge(band) is None <==> band == BAND_COUNT - 1,
{
}

} // verus!
