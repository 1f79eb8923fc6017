//! The scalar arithmetic of the ensemble, on IEEE-754 double bit patterns.
//!
//! Every time-varying quantity of the ensemble is a double carried as its
//! `u64` bit pattern. Each arithmetic operation is performed by an outside
//! crate whose result is a function of the argument bits alone, and is named
//! here by an uninterpreted spec function; beside each name stand only the
//! IEEE-754 edge-case facts that the contracts of the engine need, each
//! plainly shown by the outside crate's source.

use vstd::prelude::*;

use const_soft_float::soft_f64::SoftF64;

use crate::bits::{
    is_finite_bits, is_nan_bits, spec_abs_bits, NEG_ZERO, ONE_BITS, POS_ZERO, TWO_BITS,
    TWO_PI_BITS,
};

verus! {

pub uninterp spec fn add_bits(a: u64, b: u64) -> u64;

pub uninterp spec fn sub_bits(a: u64, b: u64) -> u64;

pub uninterp spec fn mul_bits(a: u64, b: u64) -> u64;

pub uninterp spec fn div_bits(a: u64, b: u64) -> u64;

pub uninterp spec fn sqrt_bits(a: u64) -> u64;

pub uninterp spec fn sin_bits(a: u64) -> u64;

pub uninterp spec fn cos_bits(a: u64) -> u64;

pub uninterp spec fn rem_bits(a: u64, b: u64) -> u64;

pub uninterp spec fn max_bits(a: u64, b: u64) -> u64;

pub uninterp spec fn min_bits(a: u64, b: u64) -> u64;

pub uninterp spec fn usize_bits(n: usize) -> u64;

/// Relies on const_soft_float's SoftF64::add: IEEE-754 double addition,
/// round to nearest even. A NaN operand gives a NaN; adding a zero to
/// anything that is neither a NaN nor -0.0 returns it unchanged.
#[verifier::external_body]
pub(crate) fn dadd(a: u64, b: u64) -> (r: u64)
    ensures
        r == add_bits(a, b),
        is_nan_bits(a) || is_nan_bits(b) ==> is_nan_bits(r),
        !is_nan_bits(a) && a != NEG_ZERO && (b == POS_ZERO || b == NEG_ZERO) ==> r == a,
{
    SoftF64::from_bits(a).add(SoftF64::from_bits(b)).to_bits()
}

/// Relies on const_soft_float's SoftF64::sub: IEEE-754 double subtraction.
/// A NaN operand gives a NaN; a finite value minus itself is +0.0;
/// subtracting a zero from anything that is neither a NaN nor -0.0 returns
/// it unchanged.
#[verifier::external_body]
pub(crate) fn dsub(a: u64, b: u64) -> (r: u64)
    ensures
        r == sub_bits(a, b),
        is_nan_bits(a) || is_nan_bits(b) ==> is_nan_bits(r),
        is_finite_bits(a) && b == a ==> r == POS_ZERO,
        !is_nan_bits(a) && a != NEG_ZERO && (b == POS_ZERO || b == NEG_ZERO) ==> r == a,
{
    SoftF64::from_bits(a).sub(SoftF64::from_bits(b)).to_bits()
}

/// Relies on const_soft_float's SoftF64::mul: IEEE-754 double multiplication.
/// A NaN operand gives a NaN; a finite value times a zero is a zero; +0.0
/// times +0.0 is +0.0; 1.0 times anything that is not a NaN returns it
/// unchanged (the product is exact).
#[verifier::external_body]
pub(crate) fn dmul(a: u64, b: u64) -> (r: u64)
    ensures
        r == mul_bits(a, b),
        is_nan_bits(a) || is_nan_bits(b) ==> is_nan_bits(r),
        is_finite_bits(a) && (b == POS_ZERO || b == NEG_ZERO) ==> r == POS_ZERO || r
            == NEG_ZERO,
        a == POS_ZERO && b == POS_ZERO ==> r == POS_ZERO,
        a == ONE_BITS && !is_nan_bits(b) ==> r == b,
{
    SoftF64::from_bits(a).mul(SoftF64::from_bits(b)).to_bits()
}

/// Relies on const_soft_float's SoftF64::div: IEEE-754 double division.
/// A NaN operand gives a NaN; a zero divided by a zero is a NaN; halving a
/// finite value stays finite; +0.0 divided by a finite positive nonzero
/// value is +0.0; a finite nonzero value divided by itself is exactly 1.0.
#[verifier::external_body]
pub(crate) fn ddiv(a: u64, b: u64) -> (r: u64)
    ensures
        r == div_bits(a, b),
        is_nan_bits(a) || is_nan_bits(b) ==> is_nan_bits(r),
        (a == POS_ZERO || a == NEG_ZERO) && (b == POS_ZERO || b == NEG_ZERO) ==> is_nan_bits(r),
        is_finite_bits(a) && b == TWO_BITS ==> is_finite_bits(r),
        a == POS_ZERO && is_finite_bits(b) && spec_abs_bits(b) == b && b != POS_ZERO ==> r
            == POS_ZERO,
        is_finite_bits(a) && spec_abs_bits(a) != POS_ZERO && b == a ==> r == ONE_BITS,
{
    SoftF64::from_bits(a).div(SoftF64::from_bits(b)).to_bits()
}

/// Relies on libm::sqrt: the correctly rounded IEEE-754 double square root.
/// The square root of +0.0 is +0.0.
#[verifier::external_body]
pub(crate) fn dsqrt(a: u64) -> (r: u64)
    ensures
        r == sqrt_bits(a),
        a == POS_ZERO ==> r == POS_ZERO,
{
    libm::sqrt(SoftF64::from_bits(a).to_f64()).to_bits()
}

/// Relies on libm::sin: the double sine, a function of the argument bits
/// alone. The sine of +0.0 is +0.0.
#[verifier::external_body]
pub(crate) fn dsin(a: u64) -> (r: u64)
    ensures
        r == sin_bits(a),
        a == POS_ZERO ==> r == POS_ZERO,
{
    libm::sin(SoftF64::from_bits(a).to_f64()).to_bits()
}

/// Relies on libm::cos: the double cosine, a function of the argument bits
/// alone.
#[verifier::external_body]
pub(crate) fn dcos(a: u64) -> (r: u64)
    ensures
        r == cos_bits(a),
{
    libm::cos(SoftF64::from_bits(a).to_f64()).to_bits()
}

/// Relies on libm::fmod: the exact floating remainder, with the sign of the
/// dividend. Against the double just above 2*pi: a finite dividend gives a
/// finite result whose magnitude stays strictly below that divisor (the
/// remainder is exact and |r| < |y|), a dividend already that small comes
/// back unchanged (trunc(x/y) is 0), and an infinite or NaN dividend gives
/// a NaN.
#[verifier::external_body]
pub(crate) fn drem(a: u64, b: u64) -> (r: u64)
    ensures
        r == rem_bits(a, b),
        b == TWO_PI_BITS && is_finite_bits(a) ==> is_finite_bits(r) && spec_abs_bits(r)
            < TWO_PI_BITS,
        b == TWO_PI_BITS && is_finite_bits(a) && spec_abs_bits(a) < TWO_PI_BITS ==> r == a,
        b == TWO_PI_BITS && !is_finite_bits(a) ==> is_nan_bits(r),
{
    libm::fmod(SoftF64::from_bits(a).to_f64(), SoftF64::from_bits(b).to_f64()).to_bits()
}

/// Relies on libm::fmax: IEEE-754 maxNum. A NaN argument yields the other
/// argument; with no NaN the result is one of the two arguments.
#[verifier::external_body]
pub(crate) fn dmax(a: u64, b: u64) -> (r: u64)
    ensures
        r == max_bits(a, b),
        is_nan_bits(b) && !is_nan_bits(a) ==> r == a,
        is_nan_bits(a) && !is_nan_bits(b) ==> r == b,
        !is_nan_bits(a) && !is_nan_bits(b) ==> r == a || r == b,
{
    libm::fmax(SoftF64::from_bits(a).to_f64(), SoftF64::from_bits(b).to_f64()).to_bits()
}

/// Relies on libm::fmin: IEEE-754 minNum. A NaN argument yields the other
/// argument; with no NaN the result is one of the two arguments.
#[verifier::external_body]
pub(crate) fn dmin(a: u64, b: u64) -> (r: u64)
    ensures
        r == min_bits(a, b),
        is_nan_bits(b) && !is_nan_bits(a) ==> r == a,
        is_nan_bits(a) && !is_nan_bits(b) ==> r == b,
        !is_nan_bits(a) && !is_nan_bits(b) ==> r == a || r == b,
{
    libm::fmin(SoftF64::from_bits(a).to_f64(), SoftF64::from_bits(b).to_f64()).to_bits()
}

/// Relies on num_traits::ToPrimitive::to_f64 for usize (always Some: the
/// rounded double nearest the integer). The result is finite and
/// non-negative; 1 and 2 convert exactly.
#[verifier::external_body]
pub(crate) fn d_of_usize(n: usize) -> (r: u64)
    ensures
        r == usize_bits(n),
        is_finite_bits(r),
        spec_abs_bits(r) == r,
        n == 1 ==> r == ONE_BITS,
        n == 2 ==> r == TWO_BITS,
{
    num_traits::ToPrimitive::to_f64(&n).unwrap().to_bits()
}

} // verus!
