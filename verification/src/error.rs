//! The ways in which a configuration is refused.

use vstd::prelude::*;

verus! {

/// Why a noise model or a flow model could not be built.
#[derive(Clone, Copy, Debug, PartialEq, Eq, Structural)]
pub enum ConfigurationError {
    /// The number of octaves is below one.
    OctavesBelowOne,
    /// The frequency is not a number above zero.
    FrequencyNotPositive,
    /// The vector size is zero, so no cell has an extent.
    ZeroVectorSize,
}

} // verus!
