//! IEEE 754 single-precision numbers, read through their 32-bit patterns.
//!
//! A pattern is a sign bit, eight bits of biased exponent and 23 bits of
//! fraction. The value that a pattern encodes is modelled exactly, as an
//! integer: the encoded number times 2^149, the reciprocal of the smallest
//! subnormal. Infinity is given the value that its pattern would encode if it
//! were one more binade of numbers, which puts it beyond every finite number
//! on either side.

use vstd::arithmetic::power2::{lemma_pow2_pos, lemma_pow2_strictly_increases, lemma_pow2_unfold, pow2};
use vstd::prelude::*;

verus! {

/// The sign bit.
pub const SIGN_BIT: u32 = 0x8000_0000;

/// The pattern of positive infinity. A larger magnitude encodes no number.
pub const INFINITY: u32 = 0x7f80_0000;

/// The number of fraction patterns in one binade, and the weight of the hidden
/// leading bit of a normal number.
pub const BINADE: u32 = 0x0080_0000;

/// Whether the sign bit is set.
pub open spec fn is_negative(bits: u32) -> bool {
    bits >= SIGN_BIT
}

/// The pattern without its sign bit.
pub open spec fn magnitude(bits: u32) -> int {
    if bits >= SIGN_BIT {
        bits - SIGN_BIT
    } else {
        bits as int
    }
}

/// Whether the pattern encodes no number.
pub open spec fn is_nan(bits: u32) -> bool {
    magnitude(bits) > INFINITY
}

/// The absolute value, times 2^149, that a magnitude `m` encodes.
///
/// With exponent field `e` and fraction field `f`: a subnormal (`e` = 0) is
/// `f` * 2^-149, a normal number is (2^23 + `f`) * 2^(`e` - 150).
pub open spec fn scaled(m: int) -> int {
    let e = m / (BINADE as int);
    let f = m % (BINADE as int);
    if e == 0 {
        f
    } else {
        (BINADE + f) * pow2((e - 1) as nat)
    }
}

/// The value, times 2^149, that a pattern encodes. Meaningful unless the
/// pattern is a NaN.
pub open spec fn scaled_value(bits: u32) -> int {
    if is_negative(bits) {
        -scaled(magnitude(bits))
    } else {
        scaled(magnitude(bits))
    }
}

/// The order in which magnitudes of spectral bins are compared: numbers by
/// their value, so that the two zeros are equal; a NaN below every number;
/// NaNs equal among themselves.
pub open spec fn ranks_below(a: u32, b: u32) -> bool {
    if is_nan(b) {
        false
    } else if is_nan(a) {
        true
    } else {
        scaled_value(a) < scaled_value(b)
    }
}

/// Whether the pattern encodes a number greater than zero.
pub open spec fn spec_is_positive(bits: u32) -> bool {
    !is_nan(bits) && scaled_value(bits) > 0
}

/// The integer that stands for a pattern when patterns are ordered.
pub open spec fn spec_rank(bits: u32) -> u32 {
    if is_nan(bits) {
        0
    } else if is_negative(bits) {
        (SIGN_BIT - magnitude(bits)) as u32
    } else {
        (SIGN_BIT + magnitude(bits)) as u32
    }
}

/// A larger magnitude encodes a larger absolute value.
pub proof fn lemma_scaled_increases(lo: int, hi: int)
    requires
        0 <= lo < hi,
    ensures
        0 <= scaled(lo) < scaled(hi),
{
    let e_lo = lo / (BINADE as int);
    let f_lo = lo % (BINADE as int);
    let e_hi = hi / (BINADE as int);
    let f_hi = hi % (BINADE as int);
    let w_lo = pow2((e_lo - 1) as nat) as int;
    let w_hi = pow2((e_hi - 1) as nat) as int;
    lemma_pow2_pos((e_lo - 1) as nat);
    lemma_pow2_pos((e_hi - 1) as nat);
    assert(0 <= (BINADE + f_lo) * w_lo) by (nonlinear_arith)
        requires
            0 <= f_lo,
            0 < w_lo,
    ;
    if e_lo == e_hi {
        assert((BINADE + f_lo) * w_lo < (BINADE + f_hi) * w_lo) by (nonlinear_arith)
            requires
                f_lo < f_hi,
                0 < w_lo,
        ;
    } else {
        assert(BINADE * w_hi <= (BINADE + f_hi) * w_hi) by (nonlinear_arith)
            requires
                0 <= f_hi,
                0 < w_hi,
        ;
        if e_lo == 0 {
            assert(BINADE * 1 <= BINADE * w_hi) by (nonlinear_arith)
                requires
                    1 <= w_hi,
            ;
        } else {
            lemma_pow2_unfold(e_lo as nat);
            if e_lo < e_hi - 1 {
                lemma_pow2_strictly_increases(e_lo as nat, (e_hi - 1) as nat);
            }
            assert((BINADE + f_lo) * w_lo < BINADE * (2 * w_lo)) by (nonlinear_arith)
                requires
                    f_lo < BINADE,
                    0 < w_lo,
            ;
            assert(BINADE * (2 * w_lo) <= BINADE * w_hi) by (nonlinear_arith)
                requires
                    2 * w_lo <= w_hi,
            ;
        }
    }
}

/// Ranks order patterns as `ranks_below` does.
pub proof fn lemma_rank_orders(a: u32, b: u32)
    ensures
        ranks_below(a, b) <==> spec_rank(a) < spec_rank(b),
{
    if !is_nan(a) && !is_nan(b) {
        let ma = magnitude(a);
        let mb = magnitude(b);
        assert(scaled(0) == 0);
        if ma > 0 {
            lemma_scaled_increases(0, ma);
        }
        if mb > 0 {
            lemma_scaled_increases(0, mb);
        }
        if ma < mb {
            lemma_scaled_increases(ma, mb);
        } else if mb < ma {
            lemma_scaled_increases(mb, ma);
        }
    }
}

/// Ranking below is a strict weak order: no pattern ranks below itself,
/// ranking below is transitive, and so is not ranking below. Any two patterns
/// are thus either ranked one below the other or ranked equal, and a
/// comparison never depends on what was compared before.
pub proof fn lemma_ranks_below_is_strict_weak_order(a: u32, b: u32, c: u32)
    ensures
        !ranks_below(a, a),
        ranks_below(a, b) && ranks_below(b, c) ==> ranks_below(a, c),
        !ranks_below(a, b) && !ranks_below(b, c) ==> !ranks_below(a, c),
{
    lemma_rank_orders(a, a);
    lemma_rank_orders(a, b);
    lemma_rank_orders(b, c);
    lemma_rank_orders(a, c);
}

/// The numbers greater than zero are the patterns from 1, the smallest
/// subnormal, up to positive infinity.
pub proof fn lemma_positive_patterns(bits: u32)
    ensures
        spec_is_positive(bits) <==> 0 < bits <= INFINITY,
{
    assert(scaled(0) == 0);
    if magnitude(bits) > 0 {
        lemma_scaled_increases(0, magnitude(bits));
    }
}

/// The integer that stands for a pattern when patterns are ordered.
#[verifier::when_used_as_spec(spec_rank)]
pub fn rank(bits: u32) -> (r: u32)
    ensures
        r == spec_rank(bits),
{
    let negative = bits >= SIGN_BIT;
    let magnitude: u32 = if negative {
        bits - SIGN_BIT
    } else {
        bits
    };
    if magnitude > INFINITY {
        0
    } else if negative {
        SIGN_BIT - magnitude
    } else {
        SIGN_BIT + magnitude
    }
}

/// Whether the pattern encodes a number greater than zero: a positive
/// subnormal, a positive normal number or positive infinity.
#[verifier::when_used_as_spec(spec_is_positive)]
pub fn is_positive(bits: u32) -> (r: bool)
    ensures
        r == spec_is_positive(bits),
{
    proof {
        lemma_positive_patterns(bits);
    }
    0 < bits && bits <= INFINITY
}

} // verus!
