//! Pumice: dynamic resonance suppression for a single vocal.

pub mod quality;
pub mod stft;
pub mod engine;
pub mod plugin;
pub mod nodes;
