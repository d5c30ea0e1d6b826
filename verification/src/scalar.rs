//! Bit-level model of the IEEE 754 binary32 scalars that path coordinates
//! and bounds are made of.
//!
//! The core never performs rounding arithmetic; all it needs from the scalar
//! domain is equality, ordering, minimum, maximum, and a few classification
//! predicates. Each of those is a short, exact function of the 32-bit
//! encoding alone, so they are implemented here over raw bit patterns
//! (`u32`) and verified against spec functions that restate the IEEE 754
//! rules directly:
//!
//! - a pattern is a NaN when its magnitude (the pattern with the sign bit
//!   cleared) exceeds the infinity encoding;
//! - NaN compares unequal to everything, and is neither less than nor
//!   greater than anything;
//! - the two zero encodings (positive and negative) compare equal;
//! - otherwise, ordering follows the sign and the magnitude.
//!
//! Minimum and maximum follow the standard library's documented rule: if
//! exactly one operand is NaN, the other operand is returned. When the two
//! operands compare equal but are encoded differently (one zero of each
//! sign), the first operand is kept; the standard library leaves that tie
//! unspecified, so this is one of the permitted outcomes.
use vstd::prelude::*;

verus! {

/// The bit pattern of positive infinity.
pub const INFINITY_BITS: u32 = 0x7f80_0000;

/// The bit pattern of negative infinity.
pub const NEG_INFINITY_BITS: u32 = 0xff80_0000;

/// The bit pattern of the value 256, the fallback canvas side.
pub const FALLBACK_SIDE_BITS: u32 = 0x4380_0000;

/// The pattern with its sign bit cleared: the encoding of the absolute value.
pub open spec fn magnitude_bits(b: u32) -> u32 {
    b % 0x8000_0000u32
}

/// Whether the sign bit of the pattern is set.
pub open spec fn sign_bit(b: u32) -> bool {
    b >= 0x8000_0000u32
}

/// Whether the pattern encodes a NaN: magnitude above the infinity encoding.
pub open spec fn is_nan_bits(b: u32) -> bool {
    magnitude_bits(b) > INFINITY_BITS
}

/// Whether the pattern encodes a finite value: magnitude below the infinity
/// encoding.
pub open spec fn is_finite_bits(b: u32) -> bool {
    magnitude_bits(b) < INFINITY_BITS
}

/// An integer key that orders non-NaN patterns exactly as their encoded
/// values are ordered: negative patterns are mapped below positive ones,
/// and the two zero encodings share the key zero.
pub open spec fn order_key(b: u32) -> int {
    if sign_bit(b) {
        0x8000_0000int - b
    } else {
        b as int
    }
}

/// Equality of the encoded values: false on NaN, true for the two zeros,
/// otherwise bit equality.
pub open spec fn eq_bits(a: u32, b: u32) -> bool {
    &&& !is_nan_bits(a)
    &&& !is_nan_bits(b)
    &&& order_key(a) == order_key(b)
}

/// Strict order of the encoded values: false whenever either side is NaN.
pub open spec fn lt_bits(a: u32, b: u32) -> bool {
    &&& !is_nan_bits(a)
    &&& !is_nan_bits(b)
    &&& order_key(a) < order_key(b)
}

/// Whether the encoded value is strictly greater than zero. Holds for
/// positive infinity; never holds for NaN or for either zero.
pub open spec fn gt_zero_bits(b: u32) -> bool {
    &&& !is_nan_bits(b)
    &&& order_key(b) > 0
}

/// Whether the encoded value is a valid length for the document model:
/// finite and strictly positive.
pub open spec fn valid_length_bits(b: u32) -> bool {
    gt_zero_bits(b) && is_finite_bits(b)
}

/// The minimum with the standard library's NaN rule: if one operand is NaN
/// the other is returned; on an equal-key tie the first operand is kept.
pub open spec fn min_bits(a: u32, b: u32) -> u32 {
    if is_nan_bits(a) {
        b
    } else if is_nan_bits(b) {
        a
    } else if order_key(b) < order_key(a) {
        b
    } else {
        a
    }
}

/// The maximum with the standard library's NaN rule: if one operand is NaN
/// the other is returned; on an equal-key tie the first operand is kept.
pub open spec fn max_bits(a: u32, b: u32) -> u32 {
    if is_nan_bits(a) {
        b
    } else if is_nan_bits(b) {
        a
    } else if order_key(b) > order_key(a) {
        b
    } else {
        a
    }
}

/// Decides whether a pattern encodes a NaN.
pub fn float_is_nan(b: u32) -> (r: bool)
    ensures
        r == is_nan_bits(b),
{
    b % 0x8000_0000u32 > INFINITY_BITS
}

/// Decides whether a pattern encodes a finite value.
pub fn float_is_finite(b: u32) -> (r: bool)
    ensures
        r == is_finite_bits(b),
{
    b % 0x8000_0000u32 < INFINITY_BITS
}

/// Decides equality of two encoded values.
pub fn float_eq(a: u32, b: u32) -> (r: bool)
    ensures
        r == eq_bits(a, b),
{
    if float_is_nan(a) || float_is_nan(b) {
        false
    } else {
        a == b || (a % 0x8000_0000u32 == 0 && b % 0x8000_0000u32 == 0)
    }
}

/// Decides the strict order of two encoded values.
pub fn float_lt(a: u32, b: u32) -> (r: bool)
    ensures
        r == lt_bits(a, b),
{
    if float_is_nan(a) || float_is_nan(b) {
        false
    } else {
        let sa: bool = a >= 0x8000_0000u32;
        let sb: bool = b >= 0x8000_0000u32;
        if sa && sb {
            b < a
        } else if sa {
            a > 0x8000_0000u32 || b > 0
        } else if sb {
            false
        } else {
            a < b
        }
    }
}

/// Computes the minimum of two encoded values.
pub fn float_min(a: u32, b: u32) -> (r: u32)
    ensures
        r == min_bits(a, b),
{
    if float_is_nan(a) {
        b
    } else if float_is_nan(b) {
        a
    } else if float_lt(b, a) {
        b
    } else {
        a
    }
}

/// Computes the maximum of two encoded values.
pub fn float_max(a: u32, b: u32) -> (r: u32)
    ensures
        r == max_bits(a, b),
{
    if float_is_nan(a) {
        b
    } else if float_is_nan(b) {
        a
    } else if float_lt(a, b) {
        b
    } else {
        a
    }
}

/// Decides whether the encoded value is strictly greater than zero.
pub fn float_gt_zero(b: u32) -> (r: bool)
    ensures
        r == gt_zero_bits(b),
{
    b > 0 && b < 0x8000_0000u32 && !float_is_nan(b)
}

/// Decides whether the encoded value is a valid length: finite and strictly
/// positive. This is the acceptance rule of the document model for canvas
/// sides and for font sizes.
pub fn float_valid_length(b: u32) -> (r: bool)
    ensures
        r == valid_length_bits(b),
{
    float_gt_zero(b) && float_is_finite(b)
}

} // verus!
