//! The five bands: which one is which, which are heard while something is
//! soloed, and which one the curve panel shows.

use vstd::prelude::*;

verus! {

/// SUB, BODY, MID, PRESENCE, AIR.
pub const BAND_COUNT: usize = 5;

/// The band `BODY` tilts.
pub const BODY_BAND: usize = 1;

/// The band `AIR` tilts, and the one the harmonic layer rides on.
pub const AIR_BAND: usize = 4;

/// The band De-Harsh holds back: PRESENCE.
pub const GUARDED_BAND: usize = 3;

/// The band Sub Protect closes: SUB.
pub const PROTECTED_BAND: usize = 0;

/// The band the curve panel falls back to: where this plugin is mostly used.
pub const DEFAULT_BAND: usize = 3;

/// Which bipolar macro leans on a band's amount.
#[derive(Clone, Copy, PartialEq, Eq, Structural, Debug)]
pub enum Tilt {
    Body,
    Air,
    /// The band follows `SPARK` alone.
    Neither,
}

/// Whether any band is soloed.
pub open spec fn spec_soloing(solo: [bool; 5]) -> bool {
    exists|band: int| 0 <= band < 5 && #[trigger] solo@[band]
}

/// Whether `band` is heard: every band is while nothing is soloed, and only
/// the soloed ones while something is.
pub open spec fn spec_audible(solo: [bool; 5], band: int) -> bool {
    !spec_soloing(solo) || solo@[band]
}

/// Whether any band is soloed.
pub fn soloing(solo: &[bool; 5]) -> (any: bool)
    ensures
        any == spec_soloing(*solo),
        forall|band: int| 0 <= band < BAND_COUNT && solo@[band] ==> any,
        any ==> exists|band: int| 0 <= band < BAND_COUNT && solo@[band],
{
    let mut band: usize = 0;
    while band < BAND_COUNT
        invariant
            0 <= band <= BAND_COUNT,
            forall|earlier: int| 0 <= earlier < band ==> !solo@[earlier],
        decreases BAND_COUNT - band,
    {
        if solo[band] {
            return true;
        }
        band = band + 1;
    }
    false
}

/// Whether `band` is heard: every band is while nothing is soloed, and only
/// the soloed ones while something is.
pub fn audible(solo: &[bool; 5], band: usize) -> (heard: bool)
    requires
        band < BAND_COUNT,
    ensures
        heard == spec_audible(*solo, band as int),
        solo@[band as int] ==> heard,
        forall|other: int| 0 <= other < BAND_COUNT && solo@[other] && !solo@[band as int] ==> !heard,
        (forall|other: int| 0 <= other < BAND_COUNT ==> !solo@[other]) ==> heard,
{
    !soloing(solo) || solo[band]
}

/// Which macro tilts `band`: `BODY` the second, `AIR` the top one, and the
/// rest follow `SPARK` alone.
pub fn tilt_of(band: usize) -> (tilt: Tilt)
    ensures
        tilt == if band == BODY_BAND {
            Tilt::Body
        } else if band == AIR_BAND {
            Tilt::Air
        } else {
            Tilt::Neither
        },
{
    if band == BODY_BAND {
        Tilt::Body
    } else if band == AIR_BAND {
        Tilt::Air
    } else {
        Tilt::Neither
    }
}

/// The band the curve panel shows, out of three inputs: the first soloed
/// band wins, then the hovered one if it is a band at all, then PRESENCE.
pub fn shown(solo: &[bool; 5], hovered: Option<usize>) -> (band: usize)
    ensures
        band < BAND_COUNT,
        forall|soloed: int|
            0 <= soloed < BAND_COUNT && solo@[soloed] ==> solo@[band as int] && band <= soloed,
        spec_soloing(*solo) ==> solo@[band as int] && forall|earlier: int|
            0 <= earlier < band ==> !solo@[earlier],
        !spec_soloing(*solo) ==> band == match hovered {
            Some(index) => if index < BAND_COUNT {
                index
            } else {
                DEFAULT_BAND
            },
            None => DEFAULT_BAND,
        },
{
    let mut band: usize = 0;
    while band < BAND_COUNT
        invariant
            0 <= band <= BAND_COUNT,
            forall|earlier: int| 0 <= earlier < band ==> !solo@[earlier],
        decreases BAND_COUNT - band,
    {
        if solo[band] {
            return band;
        }
        band = band + 1;
    }
    match hovered {
        Some(index) => if index < BAND_COUNT {
            index
        } else {
            DEFAULT_BAND
        },
        None => DEFAULT_BAND,
    }
}

/// **Soloing a band drops the others, and nothing else.** With nothing
/// soloed every band is heard; with something soloed exactly the soloed bands
/// are, so a solo never silences itself.
pub proof fn lemma_solo_routing(solo: [bool; 5], band: int)
    requires
        0 <= band < 5,
    ensures
        !spec_soloing(solo) ==> spec_audible(solo, band),
        spec_soloing(solo) ==> (spec_audible(solo, band) <==> solo@[band]),
        solo@[band] ==> spec_audible(solo, band),
{
}

/// **Any soloed band counts, the top one included.** A band is soloing the
/// plugin exactly when some band in `0..BAND_COUNT` is soloed; so a solo on
/// any band, AIR among them, silences every band that is not soloed.
pub proof fn lemma_any_solo_silences_the_rest(solo: [bool; 5], soloed: int, other: int)
    requires
        0 <= soloed < BAND_COUNT,
        0 <= other < BAND_COUNT,
    ensures
        solo@[soloed] ==> spec_soloing(solo),
        spec_soloing(solo) ==> exists|band: int| 0 <= band < BAND_COUNT && solo@[band],
        solo@[soloed] && !solo@[other] ==> !spec_audible(solo, other),
{
}

} // verus!
