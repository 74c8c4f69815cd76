//! Density-surface preparation for isoline extraction.
//!
//! The crate classifies a scalar distribution into equal-width bins and
//! prepares the regular sampling grid and per-node point distances that a
//! Gaussian kernel density estimate is built from. Scalar samples and
//! coordinates are fixed-point integers: the caller picks a scale and works
//! in those units throughout.

pub mod classify;
pub mod density;
pub mod errors;
pub mod grid;
pub mod pipeline;

pub use classify::equal_interval;
