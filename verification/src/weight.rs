//! The strength of a relation: a double-precision number, held by its bits.

use vstd::prelude::*;

verus! {

/// The bits of the number one.
pub const ONE_BITS: u64 = 0x3FF0_0000_0000_0000;

/// The bits of the zero that carries a minus sign.
pub const NEGATIVE_ZERO_BITS: u64 = 0x8000_0000_0000_0000;

/// Whether the sign bit is set.
pub open spec fn sign_of(bits: u64) -> bool {
    (bits >> 63) == 1
}

/// The eleven exponent bits, biased by 1023.
pub open spec fn exponent_of(bits: u64) -> u64 {
    (bits >> 52) & 0x7FF
}

/// The fifty-two fraction bits.
pub open spec fn fraction_of(bits: u64) -> u64 {
    bits & 0x000F_FFFF_FFFF_FFFF
}

/// Whether the bits encode a number between zero and one, both included.
///
/// That is a zero of either sign, or a positive number whose exponent lies
/// below the bias (so that it is less than one), or the number one itself.
/// Infinities, negative numbers and values that are not numbers are outside.
pub open spec fn in_unit_interval(bits: u64) -> bool {
    ||| exponent_of(bits) == 0 && fraction_of(bits) == 0
    ||| !sign_of(bits) && exponent_of(bits) < 1023
    ||| !sign_of(bits) && exponent_of(bits) == 1023 && fraction_of(bits) == 0
}

/// A double-precision weight, held as the sixty-four bits of its encoding.
#[derive(Clone, Copy, Debug, PartialEq, Eq, Structural)]
pub struct Weight {
    bits: u64,
}

impl View for Weight {
    type V = u64;

    closed spec fn view(&self) -> u64 {
        self.bits
    }
}

impl Weight {
    /// The weight with the given encoding.
    pub fn from_bits(bits: u64) -> (weight: Weight)
        ensures
            weight@ == bits,
    {
        Weight { bits }
    }

    /// The encoding of this weight.
    pub fn to_bits(&self) -> (bits: u64)
        ensures
            bits == self@,
    {
        self.bits
    }

    /// Whether this weight lies between zero and one, both included.
    pub fn is_in_unit_interval(&self) -> (inside: bool)
        ensures
            inside == in_unit_interval(self@),
    {
        let bits: u64 = self.bits;
        proof {
            lemma_unit_interval_by_order(bits);
        }
        bits <= ONE_BITS || bits == NEGATIVE_ZERO_BITS
    }
}

/// Whether an optional weight is acceptable on a relation: absent, or inside
/// the unit interval.
pub open spec fn acceptable(weight: Option<Weight>) -> bool {
    match weight {
        Some(w) => in_unit_interval(w@),
        None => true,
    }
}

/// Encodings of numbers in the unit interval are exactly those not above the
/// encoding of one, and the negative zero.
pub proof fn lemma_unit_interval_by_order(bits: u64)
    ensures
        in_unit_interval(bits) <==> (bits <= ONE_BITS || bits == NEGATIVE_ZERO_BITS),
{
    assert(((bits >> 52) & 0x7FF == 0 && bits & 0x000F_FFFF_FFFF_FFFF == 0) <==> (bits == 0 || bits
        == 0x8000_0000_0000_0000)) by (bit_vector);
    assert((!((bits >> 63) == 1) && (bits >> 52) & 0x7FF < 1023) <==> bits < 0x3FF0_0000_0000_0000)
        by (bit_vector);
    assert((!((bits >> 63) == 1) && (bits >> 52) & 0x7FF == 1023 && bits & 0x000F_FFFF_FFFF_FFFF
        == 0) <==> bits == 0x3FF0_0000_0000_0000) by (bit_vector);
}

} // verus!
