use vstd::prelude::*;

verus! {

/// Bit pattern of the double +0.0.
pub const POS_ZERO: u64 = 0;
/// Bit pattern of the double -0.0.
pub const NEG_ZERO: u64 = 0x8000_0000_0000_0000;
/// Bit pattern of the double 1.0.
pub const ONE_BITS: u64 = 0x3FF0_0000_0000_0000;
/// Bit pattern of the double 2.0.
pub const TWO_BITS: u64 = 0x4000_0000_0000_0000;
/// Bit pattern of the double nearest pi.
pub const PI_BITS: u64 = 0x4009_21FB_5444_2D18;
/// Bit pattern of the double nearest pi, halved (exact: the exponent drops by one).
pub const HALF_PI_BITS: u64 = 0x3FF9_21FB_5444_2D18;
/// Bit pattern of the double nearest pi, doubled (exact: the exponent rises by one).
pub const TWO_PI_BITS: u64 = 0x4019_21FB_5444_2D18;
/// Exponent field of an IEEE-754 double.
pub const EXP_MASK: u64 = 0x7FF0_0000_0000_0000;
/// Fraction field of an IEEE-754 double.
pub const FRAC_MASK: u64 = 0x000F_FFFF_FFFF_FFFF;
/// Everything but the sign bit.
pub const ABS_MASK: u64 = 0x7FFF_FFFF_FFFF_FFFF;
/// The sign bit.
pub const SIGN_MASK: u64 = 0x8000_0000_0000_0000;

/// The double with these bits is a NaN: exponent all ones, fraction nonzero.
pub open spec fn is_nan_bits(x: u64) -> bool {
    x & EXP_MASK == EXP_MASK && x & FRAC_MASK != 0
}

/// The double with these bits is finite (neither an infinity nor a NaN).
pub open spec fn is_finite_bits(x: u64) -> bool {
    x & EXP_MASK != EXP_MASK
}

/// Magnitude bits: the sign bit cleared. Finite doubles compare by absolute
/// value exactly as their magnitude bits compare as integers.
pub open spec fn spec_abs_bits(x: u64) -> u64 {
    x & ABS_MASK
}

/// The bits of +0.0 name a finite double, not a NaN, of magnitude +0.0.
pub proof fn lemma_zero_bits()
    ensures
        !is_nan_bits(POS_ZERO),
        is_finite_bits(POS_ZERO),
        spec_abs_bits(POS_ZERO) == POS_ZERO,
{
    assert((0u64 & 0x7FF0_0000_0000_0000u64) != 0x7FF0_0000_0000_0000u64) by (bit_vector);
    assert((0u64 & 0x7FFF_FFFF_FFFF_FFFFu64) == 0u64) by (bit_vector);
}

/// A double whose sign bit is clear is its own magnitude.
pub proof fn lemma_abs_of_nonneg(x: u64)
    requires
        x & SIGN_MASK == 0,
    ensures
        spec_abs_bits(x) == x,
{
    assert(x & 0x8000_0000_0000_0000u64 == 0 ==> x & 0x7FFF_FFFF_FFFF_FFFFu64 == x)
        by (bit_vector);
}

/// Absolute value of a double, on its bit pattern: IEEE-754 abs clears the
/// sign bit and changes nothing else, so no arithmetic is involved.
pub fn abs_bits(x: u64) -> (r: u64)
    ensures
        r == spec_abs_bits(x),
{
    x & ABS_MASK
}

} // verus!
