//! The bit-pattern model of IEEE-754 double-precision scalars.
//!
//! A scalar is carried as the 64 bits of its IEEE-754 representation
//! (sign bit, 11 exponent bits, 52 mantissa bits). The operations that are
//! pure bit manipulation or pure ordering — absolute value, negation, the
//! `<` comparison, NaN classification — are defined here exactly and
//! verified; no floating-point unit is involved anywhere in the kernel.

use vstd::prelude::*;

verus! {

/// Bit pattern of positive infinity.
pub const INF_BITS: u64 = 0x7ff0_0000_0000_0000;

/// Bit pattern of negative infinity.
pub const NEG_INF_BITS: u64 = 0xfff0_0000_0000_0000;

/// Bit pattern of 1.0.
pub const ONE_BITS: u64 = 0x3ff0_0000_0000_0000;

/// Bit pattern of -1.0.
pub const NEG_ONE_BITS: u64 = 0xbff0_0000_0000_0000;

/// Bit pattern of 0.0 (positive zero).
pub const ZERO_BITS: u64 = 0;

/// Bit pattern of the mathematical constant pi.
pub const PI_BITS: u64 = 0x4009_21fb_5444_2d18;

/// Bit pattern of 180.0, for the degree/radian conversions.
pub const D180_BITS: u64 = 0x4066_8000_0000_0000;

/// Bit pattern of 1e-10, the singularity threshold for matrix inversion.
pub const SINGULAR_EPS_BITS: u64 = 0x3ddb_7cdf_d9d7_bdbb;

/// Mask that clears the sign bit: the IEEE-754 absolute-value operation.
pub const ABS_MASK: u64 = 0x7fff_ffff_ffff_ffff;

/// Mask that flips the sign bit: the IEEE-754 negation operation.
pub const SIGN_MASK: u64 = 0x8000_0000_0000_0000;

/// Whether a bit pattern encodes a NaN: exponent all ones, mantissa nonzero.
pub open spec fn is_nan_bits(x: u64) -> bool {
    (x >> 52) & 0x7ff == 0x7ff && (x & 0xf_ffff_ffff_ffff) != 0
}

/// Whether a bit pattern encodes a zero (either +0.0 or -0.0).
pub open spec fn is_zero_bits(x: u64) -> bool {
    x & ABS_MASK == 0
}

/// The IEEE-754 `<` relation on double bit patterns.
///
/// NaN compares below nothing and above nothing; -0.0 and +0.0 are equal;
/// otherwise non-negative patterns order as unsigned integers and negative
/// patterns order in reverse.
pub open spec fn f64_lt(a: u64, b: u64) -> bool {
    if is_nan_bits(a) || is_nan_bits(b) {
        false
    } else if is_zero_bits(a) && is_zero_bits(b) {
        false
    } else if (a >> 63) != (b >> 63) {
        a >> 63 == 1
    } else if a >> 63 == 0 {
        a < b
    } else {
        b < a
    }
}

/// The IEEE-754 `max` of two doubles as `f64::max` computes it: a NaN
/// argument yields the other argument; of two ordered values, the larger.
/// Of the two zeros this picks the first argument (they are numerically
/// equal; IEEE leaves the choice open).
pub open spec fn fmax_bits(a: u64, b: u64) -> u64 {
    if is_nan_bits(b) {
        a
    } else if is_nan_bits(a) {
        b
    } else if f64_lt(a, b) {
        b
    } else {
        a
    }
}

/// The IEEE-754 `min` counterpart of `fmax_bits`.
pub open spec fn fmin_bits(a: u64, b: u64) -> u64 {
    if is_nan_bits(b) {
        a
    } else if is_nan_bits(a) {
        b
    } else if f64_lt(b, a) {
        b
    } else {
        a
    }
}

/// Executable IEEE-754 `<` on bit patterns; exactly `f64_lt`.
pub fn float_lt(a: u64, b: u64) -> (r: bool)
    ensures
        r == f64_lt(a, b),
{
    let a_nan = (a >> 52) & 0x7ff == 0x7ff && (a & 0xf_ffff_ffff_ffff) != 0;
    let b_nan = (b >> 52) & 0x7ff == 0x7ff && (b & 0xf_ffff_ffff_ffff) != 0;
    if a_nan || b_nan {
        false
    } else if a & ABS_MASK == 0 && b & ABS_MASK == 0 {
        false
    } else if (a >> 63) != (b >> 63) {
        a >> 63 == 1
    } else if a >> 63 == 0 {
        a < b
    } else {
        b < a
    }
}

/// Executable NaN test on a bit pattern; exactly `is_nan_bits`.
pub fn float_is_nan(x: u64) -> (r: bool)
    ensures
        r == is_nan_bits(x),
{
    (x >> 52) & 0x7ff == 0x7ff && (x & 0xf_ffff_ffff_ffff) != 0
}

/// Executable IEEE-754 `max` on bit patterns; exactly `fmax_bits`.
pub fn float_max(a: u64, b: u64) -> (r: u64)
    ensures
        r == fmax_bits(a, b),
{
    if float_is_nan(b) {
        a
    } else if float_is_nan(a) {
        b
    } else if float_lt(a, b) {
        b
    } else {
        a
    }
}

/// Executable IEEE-754 `min` on bit patterns; exactly `fmin_bits`.
pub fn float_min(a: u64, b: u64) -> (r: u64)
    ensures
        r == fmin_bits(a, b),
{
    if float_is_nan(b) {
        a
    } else if float_is_nan(a) {
        b
    } else if float_lt(b, a) {
        b
    } else {
        a
    }
}

/// The IEEE-754 `<` relation on bit patterns is transitive.
pub proof fn lemma_f64_lt_transitive(a: u64, b: u64, c: u64)
    requires
        f64_lt(a, b),
        f64_lt(b, c),
    ensures
        f64_lt(a, c),
{
    assert(((!((a >> 52) & 0x7ff == 0x7ff && (a & 0xf_ffff_ffff_ffff) != 0)
        && !((b >> 52) & 0x7ff == 0x7ff && (b & 0xf_ffff_ffff_ffff) != 0)
        && !(a & 0x7fff_ffff_ffff_ffff == 0 && b & 0x7fff_ffff_ffff_ffff == 0) && (if (a >> 63) != (
        b >> 63) {
        a >> 63 == 1
    } else if a >> 63 == 0 {
        a < b
    } else {
        b < a
    })) && (!((b >> 52) & 0x7ff == 0x7ff && (b & 0xf_ffff_ffff_ffff) != 0)
        && !((c >> 52) & 0x7ff == 0x7ff && (c & 0xf_ffff_ffff_ffff) != 0)
        && !(b & 0x7fff_ffff_ffff_ffff == 0 && c & 0x7fff_ffff_ffff_ffff == 0) && (if (b >> 63) != (
        c >> 63) {
        b >> 63 == 1
    } else if b >> 63 == 0 {
        b < c
    } else {
        c < b
    }))) ==> (!((a >> 52) & 0x7ff == 0x7ff && (a & 0xf_ffff_ffff_ffff) != 0)
        && !((c >> 52) & 0x7ff == 0x7ff && (c & 0xf_ffff_ffff_ffff) != 0)
        && !(a & 0x7fff_ffff_ffff_ffff == 0 && c & 0x7fff_ffff_ffff_ffff == 0) && (if (a >> 63) != (
        c >> 63) {
        a >> 63 == 1
    } else if a >> 63 == 0 {
        a < c
    } else {
        c < a
    }))) by (bit_vector);
}

} // verus!
