//! Decoding of High-Density Observation (HDOB) reconnaissance messages into
//! typed, validated observation records.
pub mod calendar;
pub mod geo;
pub mod measure;
pub mod numeral;
pub mod recon;

use vstd::prelude::*;

verus! {

/// Tropical cyclone basin.
#[derive(Debug, Copy, Clone, PartialEq, Eq, Structural)]
pub enum Basin {
    NorthAtlantic,
    EastPacific,
    CentralPacific,
}

} // verus!
