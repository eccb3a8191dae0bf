//! Error conditions of the sampler.

use vstd::prelude::*;

verus! {

/// The two precondition classes the numeric core rejects at its boundary.
#[derive(Clone, Copy, PartialEq, Eq, Structural, Debug)]
pub enum SamplerError {
    /// A time grid needs at least two points (and must fit the machine).
    InvalidGridSize,
    /// The harmonic count must select a nonempty prefix of the available
    /// coefficient pairs.
    InvalidHarmonicCount,
}

} // verus!
