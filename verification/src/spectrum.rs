//! The spectral analyzer around the transform: how long the transform is,
//! what is handed to it, and which bin of its magnitude spectrum is dominant.
//!
//! The signal is real, so the bins above the Nyquist bin mirror the ones below
//! it. The peak is looked for from bin 0 up to the Nyquist bin only, and the
//! frequency it stands for is never above half the sample rate. No window is
//! applied before the transform: a tone between two bins leaks into its
//! neighbours.

use crate::binary32::{lemma_rank_orders, rank, ranks_below};
use crate::error::AnalysisError;
use vstd::arithmetic::power2::{lemma2_to64, lemma_pow2_strictly_increases, lemma_pow2_unfold, pow2};
use vstd::prelude::*;

verus! {

/// `n` is one of 1, 2, 4, 8, ...
pub open spec fn is_power_of_two(n: int) -> bool {
    exists|k: nat| n == #[trigger] pow2(k)
}

/// `size` is the transform length for a buffer of `len` samples: the least
/// power of two that is not below `len`.
pub open spec fn is_fft_size(len: int, size: int) -> bool {
    &&& is_power_of_two(size)
    &&& len <= size
    &&& forall|k: nat| len <= #[trigger] pow2(k) ==> size <= pow2(k)
}

/// The largest buffer length whose transform length still fits in `usize`.
pub const MAX_SAMPLES: usize = usize::MAX / 2 + 1;

/// The transform length for a buffer of `len` samples.
///
/// An empty buffer has no transform and is turned down. A length that is a
/// power of two already is its own transform length.
pub fn fft_size(len: usize) -> (r: Result<usize, AnalysisError>)
    requires
        len <= MAX_SAMPLES,
    ensures
        r is Err <==> len == 0,
        r is Err ==> r == Err::<usize, AnalysisError>(AnalysisError::InvalidInput),
        r matches Ok(size) ==> is_fft_size(len as int, size as int),
        r matches Ok(size) ==> size < 2 * len,
{
    if len == 0 {
        return Err(AnalysisError::InvalidInput);
    }
    let mut size: usize = 1;
    let ghost mut k: nat = 0;
    proof {
        lemma2_to64();
    }
    while size < len
        invariant
            len <= MAX_SAMPLES,
            1 <= size < 2 * len,
            size == pow2(k),
            k == 0 || pow2((k - 1) as nat) < len,
        decreases usize::MAX - size,
    {
        size = size * 2;
        proof {
            k = k + 1;
            lemma_pow2_unfold(k);
        }
    }
    proof {
        assert forall|j: nat| len <= #[trigger] pow2(j) implies size <= pow2(j) by {
            if j < k {
                if j < k - 1 {
                    lemma_pow2_strictly_increases(j, (k - 1) as nat);
                }
            } else if j > k {
                lemma_pow2_strictly_increases(k, j);
            }
        }
    }
    Ok(size)
}

/// A complex number, held as the bit patterns of its real and imaginary part.
#[derive(Clone, Copy, Debug, PartialEq, Eq)]
pub struct ComplexBits {
    pub re: u32,
    pub im: u32,
}

/// The input of a transform of length `size` for `samples`: every sample as a
/// real number, in order, then zeros. The pattern of zero is 0.
pub open spec fn zero_padded(samples: Seq<u32>, size: int) -> Seq<ComplexBits> {
    Seq::new(
        size as nat,
        |i: int|
            ComplexBits {
                re: if i < samples.len() {
                    samples[i]
                } else {
                    0
                },
                im: 0,
            },
    )
}

/// `signal` is the transform's input for `samples`: as long as the transform,
/// the samples first and zeros behind them.
pub open spec fn is_padded_signal(samples: Seq<u32>, signal: Seq<ComplexBits>) -> bool {
    &&& is_fft_size(samples.len() as int, signal.len() as int)
    &&& signal == zero_padded(samples, signal.len() as int)
}

/// Lays out the transform's input for `samples`, padded with zeros to the
/// transform length. No window is applied. An empty buffer is turned down.
pub fn padded_signal(samples: &[u32]) -> (r: Result<Vec<ComplexBits>, AnalysisError>)
    requires
        samples.len() <= MAX_SAMPLES,
    ensures
        r is Err <==> samples.len() == 0,
        r is Err ==> r == Err::<Vec<ComplexBits>, AnalysisError>(AnalysisError::InvalidInput),
        r matches Ok(signal) ==> is_padded_signal(samples@, signal@),
{
    let size: usize = match fft_size(samples.len()) {
        Ok(size) => size,
        Err(e) => {
            return Err(e);
        },
    };
    let mut signal: Vec<ComplexBits> = Vec::with_capacity(size);
    let mut i: usize = 0;
    while i < samples.len()
        invariant
            i <= samples.len() <= size,
            signal@ == zero_padded(samples@, i as int),
        decreases samples.len() - i,
    {
        signal.push(ComplexBits { re: samples[i], im: 0 });
        i = i + 1;
    }
    while i < size
        invariant
            samples.len() <= i <= size,
            signal@ == zero_padded(samples@, i as int),
        decreases size - i,
    {
        signal.push(ComplexBits { re: 0, im: 0 });
        i = i + 1;
    }
    Ok(signal)
}

/// How many bins of a spectrum of `len` bins are searched for the peak: those
/// from 0 up to the Nyquist bin `len / 2`. The bins above it mirror the ones
/// below when the signal is real, and stand for no frequency of their own.
pub open spec fn searched_bins(len: int) -> int {
    len / 2 + 1
}

/// `p` is the dominant one of the first `width` bins of `spectrum`: no bin
/// among them outranks it, and every bin before it ranks below it.
pub open spec fn is_peak(spectrum: Seq<u32>, width: int, p: int) -> bool {
    &&& 0 <= p < width <= spectrum.len()
    &&& forall|i: int| 0 <= i < width ==> !ranks_below(spectrum[p], #[trigger] spectrum[i])
    &&& forall|i: int| 0 <= i < p ==> ranks_below(#[trigger] spectrum[i], spectrum[p])
}

/// The index of the dominant bin of a magnitude spectrum, given as bit
/// patterns: the first bin of greatest magnitude from bin 0 up to the Nyquist
/// bin. A spectrum without bins is turned down.
pub fn peak_bin(spectrum: &[u32]) -> (r: Result<usize, AnalysisError>)
    ensures
        r is Err <==> spectrum.len() == 0,
        r is Err ==> r == Err::<usize, AnalysisError>(AnalysisError::InvalidInput),
        r matches Ok(p) ==> is_peak(spectrum@, searched_bins(spectrum.len() as int), p as int),
        r matches Ok(p) ==> 2 * p <= spectrum.len(),
{
    if spectrum.len() == 0 {
        return Err(AnalysisError::InvalidInput);
    }
    let width: usize = spectrum.len() / 2 + 1;
    let mut best: usize = 0;
    let mut best_rank: u32 = rank(spectrum[0]);
    let mut i: usize = 1;
    while i < width
        invariant
            0 <= best < i <= width <= spectrum.len(),
            best_rank == rank(spectrum@[best as int]),
            forall|j: int| 0 <= j < i ==> rank(#[trigger] spectrum@[j]) <= best_rank,
            forall|j: int| 0 <= j < best ==> rank(#[trigger] spectrum@[j]) < best_rank,
        decreases width - i,
    {
        let candidate: u32 = rank(spectrum[i]);
        if candidate > best_rank {
            best = i;
            best_rank = candidate;
        }
        i = i + 1;
    }
    proof {
        assert forall|j: int| 0 <= j < width implies !ranks_below(
            spectrum@[best as int],
            #[trigger] spectrum@[j],
        ) by {
            lemma_rank_orders(spectrum@[best as int], spectrum@[j]);
        }
        assert forall|j: int| 0 <= j < best implies ranks_below(
            #[trigger] spectrum@[j],
            spectrum@[best as int],
        ) by {
            lemma_rank_orders(spectrum@[j], spectrum@[best as int]);
        }
    }
    Ok(best)
}

/// A buffer has one transform length.
pub proof fn lemma_fft_size_unique(len: int, a: int, b: int)
    requires
        is_fft_size(len, a),
        is_fft_size(len, b),
    ensures
        a == b,
{
}

/// A length that is a power of two is its own transform length: nothing is
/// padded.
pub proof fn lemma_power_of_two_is_own_fft_size(len: int)
    requires
        is_power_of_two(len),
    ensures
        is_fft_size(len, len),
{
}

/// A buffer has one padded signal.
pub proof fn lemma_padded_signal_unique(
    samples: Seq<u32>,
    a: Seq<ComplexBits>,
    b: Seq<ComplexBits>,
)
    requires
        is_padded_signal(samples, a),
        is_padded_signal(samples, b),
    ensures
        a == b,
{
    lemma_fft_size_unique(samples.len() as int, a.len() as int, b.len() as int);
}

/// A spectrum has one dominant bin.
pub proof fn lemma_peak_unique(spectrum: Seq<u32>, width: int, p: int, q: int)
    requires
        is_peak(spectrum, width, p),
        is_peak(spectrum, width, q),
    ensures
        p == q,
{
    if p < q {
        assert(ranks_below(spectrum[p], spectrum[q]));
    } else if q < p {
        assert(ranks_below(spectrum[q], spectrum[p]));
    }
}

} // verus!
