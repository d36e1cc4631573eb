//! What makes a call fail.

use vstd::prelude::*;

verus! {

/// The reasons for which a computation is abandoned as a whole.
#[derive(Clone, Copy, Debug, PartialEq, Eq, Structural)]
pub enum GeopropError {
    /// The grid has no such resolution.
    InvalidResolution,
    /// The terrain source has no elevation for a sampled point.
    MissingTerrainData,
    /// The propagation model refused its input.
    InvalidPropagationInput,
}

impl GeopropError {
    /// A sentence for the person who made the call.
    pub fn message(&self) -> (text: &'static str)
        ensures
            text == match *self {
                GeopropError::InvalidResolution => "grid resolution outside the supported range",
                GeopropError::MissingTerrainData => "no elevation data for a sampled point",
                GeopropError::InvalidPropagationInput =>
                    "propagation model input outside its valid domain",
            },
    {
        match self {
            GeopropError::InvalidResolution => "grid resolution outside the supported range",
            GeopropError::MissingTerrainData => "no elevation data for a sampled point",
            GeopropError::InvalidPropagationInput =>
                "propagation model input outside its valid domain",
        }
    }
}

} // verus!
