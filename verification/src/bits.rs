//! Single-precision numbers, read by their bits.
//!
//! The caller calculates with single-precision numbers (IEEE 754 binary32) and
//! hands a number over as its 32 bits: the sign bit, eight bits of exponent and
//! 23 bits of fraction. What this crate needs of such a number it reads off the
//! bits with whole-number arithmetic: its place in the order of the numbers,
//! whether it is below zero, and how large it is.

use vstd::prelude::*;
use vstd::arithmetic::power2::pow2;

verus! {

/// The bits without the sign bit: they grow with the size of the number.
pub open spec fn magnitude(bits: u32) -> int {
    if bits >= 0x8000_0000 {
        bits - 0x8000_0000
    } else {
        bits as int
    }
}

/// Whether the sign bit of `bits` is set.
pub open spec fn is_negative(bits: u32) -> bool {
    bits >= 0x8000_0000
}

/// Whether `bits` stands for a number, finite or infinite, and not for NaN.
pub open spec fn is_number(bits: u32) -> bool {
    magnitude(bits) <= 0x7f80_0000
}

/// The rank of the number with the given bits: its magnitude, counted below
/// zero where the sign bit is set. Both zeros have rank 0.
pub open spec fn spec_rank(bits: u32) -> int {
    if is_negative(bits) {
        -magnitude(bits)
    } else {
        magnitude(bits)
    }
}

/// Whether the number with the bits `a` is smaller than the number with the
/// bits `b`, both being numbers: by sign first, then by magnitude, and with the
/// two zeros equal.
pub open spec fn is_below(a: u32, b: u32) -> bool {
    if is_negative(a) {
        if is_negative(b) {
            magnitude(a) > magnitude(b)
        } else {
            magnitude(a) > 0 || magnitude(b) > 0
        }
    } else {
        !is_negative(b) && magnitude(a) < magnitude(b)
    }
}

/// The bits of the number one.
pub const ONE: u32 = 0x3f80_0000;

/// The bits of positive infinity.
pub const INFINITY: u32 = 0x7f80_0000;

/// Whether `a` and `b` both stand for numbers and the first is smaller than
/// the second. A comparison with NaN never holds.
pub open spec fn spec_below(a: u32, b: u32) -> bool {
    is_number(a) && is_number(b) && is_below(a, b)
}

/// The smaller of the number with the given bits and one: the number itself
/// where it is below one, and one otherwise, also for NaN.
pub open spec fn spec_at_most_one(bits: u32) -> u32 {
    if spec_below(bits, ONE) {
        bits
    } else {
        ONE
    }
}

/// Whether `bits` stands for a number below zero. Neither zero is below zero,
/// and NaN is not.
pub open spec fn spec_below_zero(bits: u32) -> bool {
    is_number(bits) && is_negative(bits) && magnitude(bits) > 0
}

/// The exponent field of the number: the eight bits after the sign bit.
pub open spec fn exponent(bits: u32) -> int {
    magnitude(bits) / 0x80_0000
}

/// The fraction field of the number: its lowest 23 bits.
pub open spec fn fraction(bits: u32) -> int {
    magnitude(bits) % 0x80_0000
}

/// The size of the finite number with the given bits, without its sign, in
/// units of 2 to the power of -149, the smallest step between two numbers: the
/// fraction alone where the exponent field is 0, else the fraction with a
/// leading one bit, doubled once for each step of the exponent above 1.
pub open spec fn spec_size(bits: u32) -> nat {
    if exponent(bits) == 0 {
        fraction(bits) as nat
    } else {
        ((0x80_0000 + fraction(bits)) * pow2((exponent(bits) - 1) as nat)) as nat
    }
}

/// The rank of the single-precision number with the given bits, or `None`
/// where the bits stand for NaN, which has no place in the order.
pub fn rank(bits: u32) -> (ranked: Option<i64>)
    ensures
        ranked is Some <==> is_number(bits),
        ranked matches Some(r) ==> r == spec_rank(bits),
{
    if bits >= 0x8000_0000 {
        let size = bits - 0x8000_0000;
        if size > 0x7f80_0000 {
            None
        } else {
            Some(-(size as i64))
        }
    } else if bits > 0x7f80_0000 {
        None
    } else {
        Some(bits as i64)
    }
}

/// Whether the number with the bits `a` is smaller than the number with the
/// bits `b`. Where either is NaN it is not.
#[verifier::when_used_as_spec(spec_below)]
pub fn below(a: u32, b: u32) -> (smaller: bool)
    ensures
        smaller == spec_below(a, b),
{
    match (rank(a), rank(b)) {
        (Some(x), Some(y)) => x < y,
        _ => false,
    }
}

/// The bits of the smaller of the given number and one. What comes out is a
/// number and is not above one.
#[verifier::when_used_as_spec(spec_at_most_one)]
pub fn at_most_one(bits: u32) -> (held: u32)
    ensures
        held == spec_at_most_one(bits),
        is_number(held),
        !spec_below(ONE, held),
{
    if below(bits, ONE) {
        bits
    } else {
        ONE
    }
}

/// Whether `bits` stands for a number below zero.
#[verifier::when_used_as_spec(spec_below_zero)]
pub fn below_zero(bits: u32) -> (below: bool)
    ensures
        below == spec_below_zero(bits),
{
    bits > 0x8000_0000 && bits <= 0xff80_0000
}

/// Ranks are ordered as the numbers are: one number is below another exactly
/// where its rank is smaller, and two numbers share a rank exactly where they
/// have the same bits or are both zero.
pub proof fn lemma_rank_keeps_order(a: u32, b: u32)
    ensures
        spec_rank(a) < spec_rank(b) <==> is_below(a, b),
        spec_rank(a) == spec_rank(b) <==> (a == b || (magnitude(a) == 0 && magnitude(b) == 0)),
{
}

/// A number is below zero exactly where it is below the zero without a sign,
/// that is, where its rank is below 0.
pub proof fn lemma_below_zero_by_rank(bits: u32)
    ensures
        spec_below_zero(bits) <==> spec_below(bits, 0),
        is_number(bits) ==> (spec_below_zero(bits) <==> spec_rank(bits) < 0),
{
}

/// Being below is a strict order on the numbers: nothing is below itself, two
/// numbers are never below each other, and what is below a number is below
/// everything above that number.
pub proof fn lemma_below_is_strict_order(a: u32, b: u32, c: u32)
    ensures
        !spec_below(a, a),
        spec_below(a, b) ==> !spec_below(b, a),
        spec_below(a, b) && spec_below(b, c) ==> spec_below(a, c),
{
}

} // verus!
