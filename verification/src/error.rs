use vstd::prelude::*;

verus! {

/// Why a filter could not be built or a frame could not be processed.
#[derive(Clone, Copy, Debug, PartialEq, Eq, Structural)]
pub enum AecError {
    /// The transform length is zero or not a power of two.
    InvalidConfiguration,
    /// A frame does not hold exactly half a transform block of samples.
    FrameSizeMismatch,
}

} // verus!
