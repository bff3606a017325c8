//! The ways in which a request can fail.

use vstd::prelude::*;

verus! {

/// Why an analysis request is turned down.
#[derive(Clone, Copy, Debug, PartialEq, Eq)]
pub enum AnalysisError {
    /// The sample buffer holds no sample.
    InvalidInput,
    /// The sample rate is not a number greater than zero.
    InvalidParameter,
}

} // verus!
