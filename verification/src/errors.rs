//! Error kinds of the pipeline. Every stage fails fast: the first violated
//! precondition aborts the run, and no partial result is produced.

use vstd::prelude::*;

verus! {

/// Why a pipeline stage refused its input.
#[derive(Clone, Copy, Debug, PartialEq, Eq, Structural)]
pub enum DensityError {
    /// An empty collection was handed to a stage that needs a non-empty one.
    EmptyInput,
    /// A value that cannot be totally ordered (a not-a-number sample at the
    /// caller's boundary) reached the pipeline. The verified stages work on
    /// integer scalars and never produce this themselves; the conversion
    /// layer around the crate reports it before converting.
    InvalidValue,
    /// A parameter that must be strictly positive (bandwidth, step size,
    /// class count) was zero or negative.
    InvalidParameter,
}

impl DensityError {
    /// A short human-readable description of the error.
    pub fn describe(&self) -> (r: &'static str)
        ensures
            *self is EmptyInput ==> r@ == "empty input collection"@,
            *self is InvalidValue ==> r@ == "value is not totally ordered"@,
            *self is InvalidParameter ==> r@ == "parameter must be strictly positive"@,
    {
        match self {
            DensityError::EmptyInput => "empty input collection",
            DensityError::InvalidValue => "value is not totally ordered",
            DensityError::InvalidParameter => "parameter must be strictly positive",
        }
    }
}

} // verus!
