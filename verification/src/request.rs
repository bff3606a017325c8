//! What is asked of a request before anything is estimated from it.

use crate::binary32::is_positive;
use crate::error::AnalysisError;
use vstd::prelude::*;

verus! {

/// An estimate needs a buffer that holds a sample: the mean power divides by
/// the number of samples, and a spectrum needs a bin.
pub fn check_samples(sample_count: usize) -> (r: Result<(), AnalysisError>)
    ensures
        r is Err <==> sample_count == 0,
        r is Err ==> r == Err::<(), AnalysisError>(AnalysisError::InvalidInput),
{
    if sample_count == 0 {
        Err(AnalysisError::InvalidInput)
    } else {
        Ok(())
    }
}

/// `verdict` is what a request of `sample_count` samples at `sample_rate` is
/// answered with. An empty buffer is invalid input, whatever the rate. With a
/// sample in the buffer, a rate that is no number greater than zero is an
/// invalid parameter. Every other request is accepted.
pub open spec fn is_verdict(
    sample_count: int,
    sample_rate: u32,
    verdict: Result<(), AnalysisError>,
) -> bool {
    &&& verdict == Err::<(), AnalysisError>(AnalysisError::InvalidInput) <==> sample_count == 0
    &&& verdict == Err::<(), AnalysisError>(AnalysisError::InvalidParameter) <==> sample_count != 0
        && !is_positive(sample_rate)
    &&& verdict is Ok <==> sample_count != 0 && is_positive(sample_rate)
}

/// A request has one verdict.
pub proof fn lemma_verdict_unique(
    sample_count: int,
    sample_rate: u32,
    a: Result<(), AnalysisError>,
    b: Result<(), AnalysisError>,
)
    requires
        is_verdict(sample_count, sample_rate, a),
        is_verdict(sample_count, sample_rate, b),
    ensures
        a == b,
{
    match (a, b) {
        (Ok(x), Ok(y)) => {
            assert(x == y);
        },
        (Err(AnalysisError::InvalidInput), _) => {},
        (Err(AnalysisError::InvalidParameter), _) => {},
        (Ok(()), Err(AnalysisError::InvalidInput)) => {},
        (Ok(()), Err(AnalysisError::InvalidParameter)) => {},
    }
}

/// Screens a request of `sample_count` samples taken at `sample_rate`, a
/// single-precision bit pattern in Hz. The buffer must hold a sample and the
/// rate must be a number greater than zero. Of a request that fails on both
/// counts, the empty buffer is reported.
pub fn check_request(sample_count: usize, sample_rate: u32) -> (r: Result<(), AnalysisError>)
    ensures
        is_verdict(sample_count as int, sample_rate, r),
{
    match check_samples(sample_count) {
        Err(e) => Err(e),
        Ok(()) => {
            if is_positive(sample_rate) {
                Ok(())
            } else {
                Err(AnalysisError::InvalidParameter)
            }
        },
    }
}

} // verus!
