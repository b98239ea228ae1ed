//! Binary64 values seen as bit patterns.
//!
//! Bit 63 is the sign, bits 62..52 the biased exponent, bits 51..0 the
//! fraction. For two patterns that are not NaN and carry the same sign, the
//! one with the larger magnitude bits is the one further from zero, so that
//! range checks on the value become integer comparisons on the pattern.

use vstd::prelude::*;

verus! {

/// The sign bit of a binary64 pattern.
pub const SIGN_BIT: u64 = 0x8000_0000_0000_0000;

/// The pattern of `1.0`.
pub const ONE_BITS: u64 = 0x3FF0_0000_0000_0000;

/// The pattern of `-1.0`.
pub const MINUS_ONE_BITS: u64 = 0xBFF0_0000_0000_0000;

/// The pattern of positive infinity; every larger magnitude is a NaN.
pub const INFINITY_BITS: u64 = 0x7FF0_0000_0000_0000;

/// The sign bit is set (this holds of `-0.0` and of negative NaNs too).
pub open spec fn is_negative(bits: u64) -> bool {
    bits >= SIGN_BIT
}

/// The pattern without its sign bit: the pattern of the absolute value.
pub open spec fn magnitude(bits: u64) -> u64 {
    if bits >= SIGN_BIT {
        (bits - SIGN_BIT) as u64
    } else {
        bits
    }
}

/// The pattern is one of the NaNs.
pub open spec fn is_nan(bits: u64) -> bool {
    magnitude(bits) > INFINITY_BITS
}

/// The pattern is a number (not a NaN) and not an infinity.
pub open spec fn is_finite(bits: u64) -> bool {
    magnitude(bits) < INFINITY_BITS
}

/// The pattern is a number in the closed interval `[-1, 1]`.
pub open spec fn in_unit_interval(bits: u64) -> bool {
    magnitude(bits) <= ONE_BITS
}

/// The value clipped to `[-1, 1]`: a number above `1.0` becomes `1.0`, one
/// below `-1.0` becomes `-1.0`, the infinities included; every other pattern,
/// NaNs and both zeros among them, stays as it is.
pub open spec fn clamped(bits: u64) -> u64 {
    if is_nan(bits) || in_unit_interval(bits) {
        bits
    } else if is_negative(bits) {
        MINUS_ONE_BITS
    } else {
        ONE_BITS
    }
}

/// Clips a sample to the closed interval `[-1, 1]`.
pub fn clamp_unit(bits: u64) -> (out: u64)
    ensures
        out == clamped(bits),
        is_nan(out) <==> is_nan(bits),
        !is_nan(bits) ==> in_unit_interval(out),
        is_negative(out) == is_negative(bits),
{
    let negative = bits >= SIGN_BIT;
    let magnitude: u64 = if negative {
        bits - SIGN_BIT
    } else {
        bits
    };
    if magnitude > INFINITY_BITS || magnitude <= ONE_BITS {
        bits
    } else if negative {
        MINUS_ONE_BITS
    } else {
        ONE_BITS
    }
}

/// Clipping changes nothing on what is already clipped, keeps a NaN a NaN,
/// and leaves every number inside `[-1, 1]`.
pub proof fn lemma_clamped_properties(bits: u64)
    ensures
        clamped(clamped(bits)) == clamped(bits),
        is_nan(clamped(bits)) <==> is_nan(bits),
        !is_nan(bits) ==> in_unit_interval(clamped(bits)),
        in_unit_interval(bits) ==> clamped(bits) == bits,
        is_negative(clamped(bits)) == is_negative(bits),
{
}

} // verus!
