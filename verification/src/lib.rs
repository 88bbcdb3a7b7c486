//! The integer side of two audio processors, Pumice and Sparkleur: block
//! sizes and latency, the overlap-add clock, the dry path's chunking, band
//! routing, and the decisions the plugin wrappers make around the host.
//!
//! Everything here is whole numbers and flags. The sample arithmetic itself is
//! floating point and lives beside this crate, driven by what it decides.

pub mod pumice;
pub mod sparkleur;

