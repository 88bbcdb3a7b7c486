//! Sparkleur: five bands of up-and-down dynamics with a transient-gated
//! harmonic layer on the top one.

pub mod bands;
pub mod crossover;
pub mod noise;
