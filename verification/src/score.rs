//! Relevance scores. A score is the bit pattern of a 32-bit IEEE-754 number;
//! the arithmetic on scores is done by the caller, the ordering is done here,
//! with integers only.

use vstd::arithmetic::power2::*;
use vstd::prelude::*;

verus! {

/// The pattern of `0.0`: the score of a document that an index did not find.
pub const ZERO_BITS: u32 = 0;

/// The pattern of `0.25`, the least similarity that a vector hit may have.
pub const SIMILARITY_THRESHOLD_BITS: u32 = 0x3e80_0000;

/// The pattern without its sign bit: exponent and mantissa.
pub open spec fn magnitude(bits: u32) -> int {
    bits as int % 0x8000_0000
}

/// Whether the sign bit is set.
pub open spec fn is_negative(bits: u32) -> bool {
    bits >= 0x8000_0000
}

/// Whether the pattern is not a number.
pub open spec fn is_nan(bits: u32) -> bool {
    magnitude(bits) > 0x7f80_0000
}

/// For the magnitude of a finite number: the absolute value of that number
/// times 2^149, which is an integer. Subnormal numbers have exponent field 0
/// and no implicit leading bit.
pub open spec fn scaled_magnitude(mag: int) -> int {
    let exponent = mag / 0x80_0000;
    let mantissa = mag % 0x80_0000;
    if exponent <= 0 {
        mantissa
    } else {
        (0x80_0000 + mantissa) * pow2((exponent - 1) as nat)
    }
}

/// For a finite pattern: the number it denotes, times 2^149. Both zeros give
/// 0. The infinities and the other patterns with the largest exponent field
/// are placed beyond every finite number of their sign.
pub open spec fn scaled_value(bits: u32) -> int {
    if is_negative(bits) {
        -scaled_magnitude(magnitude(bits))
    } else {
        scaled_magnitude(magnitude(bits))
    }
}

/// The key by which scores are ordered: a larger key is a better score.
pub open spec fn rank_key(bits: u32) -> int {
    if magnitude(bits) == 0 {
        0x8000_0000
    } else if is_negative(bits) {
        0x8000_0000 - magnitude(bits)
    } else {
        0x8000_0000 + magnitude(bits)
    }
}

/// Whether a similarity reaches the threshold.
pub open spec fn reaches_threshold(bits: u32) -> bool {
    rank_key(bits) >= rank_key(SIMILARITY_THRESHOLD_BITS)
}

/// A larger magnitude is a larger absolute value.
pub proof fn lemma_scaled_magnitude_increases(a: int, b: int)
    requires
        0 <= a < b,
    ensures
        0 <= scaled_magnitude(a) < scaled_magnitude(b),
{
    let ea = a / 0x80_0000;
    let ma = a % 0x80_0000;
    let eb = b / 0x80_0000;
    let mb = b % 0x80_0000;
    assert(0 <= ea <= eb);
    assert(0 <= ma < 0x80_0000 && 0 <= mb < 0x80_0000);
    if ea == eb {
        assert(ma < mb);
        if ea > 0 {
            let p = pow2((ea - 1) as nat);
            lemma_pow2_pos((ea - 1) as nat);
            assert((0x80_0000 + ma) * p < (0x80_0000 + mb) * p) by (nonlinear_arith)
                requires
                    p > 0,
                    ma < mb,
            ;
            assert(0 <= (0x80_0000 + ma) * p) by (nonlinear_arith)
                requires
                    p > 0,
                    ma >= 0,
            ;
        }
    } else {
        // the left side stays under 2^23 * 2^ea, the right side reaches it
        let bound = 0x80_0000 * pow2(ea as nat);
        lemma_pow2_pos(ea as nat);
        let q = pow2((eb - 1) as nat);
        if ea < eb - 1 {
            lemma_pow2_strictly_increases(ea as nat, (eb - 1) as nat);
        }
        assert(pow2(ea as nat) <= q);
        assert(bound <= (0x80_0000 + mb) * q) by (nonlinear_arith)
            requires
                bound == 0x80_0000 * pow2(ea as nat),
                pow2(ea as nat) <= q,
                mb >= 0,
        ;
        if ea == 0 {
            assert(pow2(0) == 1) by {
                lemma2_to64();
            }
        } else {
            let p = pow2((ea - 1) as nat);
            lemma_pow2_pos((ea - 1) as nat);
            lemma_pow2_unfold(ea as nat);
            assert(pow2(ea as nat) == 2 * p);
            assert((0x80_0000 + ma) * p < 0x80_0000 * (2 * p)) by (nonlinear_arith)
                requires
                    p > 0,
                    ma < 0x80_0000,
            ;
            assert(0 <= (0x80_0000 + ma) * p) by (nonlinear_arith)
                requires
                    p > 0,
                    ma >= 0,
            ;
        }
    }
}

/// The key orders scores as the numbers they denote are ordered, and two
/// scores have one key exactly when they denote one number.
pub proof fn lemma_rank_key_orders_values(a: u32, b: u32)
    ensures
        rank_key(a) < rank_key(b) <==> scaled_value(a) < scaled_value(b),
        rank_key(a) == rank_key(b) <==> scaled_value(a) == scaled_value(b),
{
    let ma = magnitude(a);
    let mb = magnitude(b);
    assert(scaled_magnitude(0) == 0);
    if ma > 0 {
        lemma_scaled_magnitude_increases(0, ma);
    }
    if mb > 0 {
        lemma_scaled_magnitude_increases(0, mb);
    }
    if ma < mb {
        lemma_scaled_magnitude_increases(ma, mb);
    }
    if mb < ma {
        lemma_scaled_magnitude_increases(mb, ma);
    }
}

/// The threshold pattern denotes one quarter: 2^147 over 2^149.
pub proof fn lemma_threshold_is_one_quarter()
    ensures
        scaled_value(SIMILARITY_THRESHOLD_BITS) == pow2(147),
        4 * scaled_value(SIMILARITY_THRESHOLD_BITS) == pow2(149),
{
    lemma2_to64();
    lemma_pow2_adds(23, 124);
    lemma_pow2_adds(2, 147);
    assert(0x3e80_0000int / 0x80_0000 == 125);
    assert(0x3e80_0000int % 0x80_0000 == 0);
}

/// A relevance score as an index reported it or as the caller computed it.
#[derive(Debug, Clone, Copy, PartialEq, Eq, Structural)]
pub struct Score {
    pub bits: u32,
}

impl Score {
    /// The score with the given bit pattern.
    pub fn from_bits(bits: u32) -> (r: Score)
        ensures
            r.bits == bits,
    {
        Score { bits }
    }

    /// The score of a document that an index did not find.
    pub fn zero() -> (r: Score)
        ensures
            r.bits == ZERO_BITS,
    {
        Score { bits: ZERO_BITS }
    }

    /// The score's key in the order of scores.
    pub fn rank_key(&self) -> (k: u32)
        ensures
            k == rank_key(self.bits),
    {
        let mag: u32 = self.bits % 0x8000_0000;
        if mag == 0 {
            0x8000_0000
        } else if self.bits >= 0x8000_0000 {
            0x8000_0000 - mag
        } else {
            0x8000_0000 + mag
        }
    }

    /// Whether the pattern is not a number.
    pub fn is_nan(&self) -> (r: bool)
        ensures
            r == is_nan(self.bits),
    {
        self.bits % 0x8000_0000 > 0x7f80_0000
    }

    /// Whether this similarity reaches the threshold of one quarter.
    pub fn reaches_threshold(&self) -> (r: bool)
        ensures
            r == reaches_threshold(self.bits),
    {
        self.rank_key() >= 0xbe80_0000
    }
}

} // verus!
