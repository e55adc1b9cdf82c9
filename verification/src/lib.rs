//! Frequency-domain adaptive echo cancellation by overlap-save block filtering
//! with normalised least-mean-squares adaptation.
//!
//! The filter is generic over a [`numeric::Numeric`] capability that supplies
//! the real and complex arithmetic and the block transform. Everything the
//! filter decides itself (the block geometry, the sliding far-end window, which
//! samples of a block are kept, how the error block is padded, and the order of
//! the arithmetic in every formula) is verified against contracts that are
//! stated over what that capability's operations return.

pub mod error;
pub mod filter;
pub mod formulas;
pub mod geometry;
pub mod laws;
pub mod numeric;
pub mod stages;
pub mod window;

pub use error::AecError;

pub use filter::FdafAec;
pub use numeric::Numeric;
