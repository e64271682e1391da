//! Confidence scores. A score is a double in `[0.0, 1.0]`, held here as the
//! IEEE-754 bit pattern of that double: for non-negative doubles that are not
//! NaN, the order of the bit patterns as integers is the order of the values,
//! so every comparison the library makes is an exact integer comparison.
use vstd::prelude::*;

verus! {

/// The bit pattern of 1.0.
pub const ONE_BITS: u64 = 0x3FF0_0000_0000_0000;

/// The bit pattern of 0.8, the score of a response that parsed whole.
pub const DIRECT_BITS: u64 = 0x3FE9_9999_9999_999A;

/// The bit pattern of 0.7, the score of a response found in a code fence
/// (and of a single vision page that reports none).
pub const FENCED_BITS: u64 = 0x3FE6_6666_6666_6666;

/// The bit pattern of 0.6, the score of an object cut out of the text.
pub const EMBEDDED_BITS: u64 = 0x3FE3_3333_3333_3333;

/// The bit pattern of 0.3, the score of a response that held no JSON.
pub const FALLBACK_BITS: u64 = 0x3FD3_3333_3333_3333;

/// The sign bit of a double.
pub const SIGN_BIT: u64 = 0x8000_0000_0000_0000;

/// The bit pattern of positive infinity; above it (without the sign) lie the NaNs.
pub const INFINITY_BITS: u64 = 0x7FF0_0000_0000_0000;

/// A confidence score in `[0.0, 1.0]`.
#[derive(Debug, Clone, Copy, PartialEq, Eq, Structural)]
pub struct Confidence {
    /// The bit pattern of the score as a double.
    pub bits: u64,
}

impl Confidence {
    /// The score lies in `[0.0, 1.0]`.
    pub open spec fn wf(self) -> bool {
        self.bits <= ONE_BITS
    }

    /// The score 0.0.
    pub fn zero() -> (r: Confidence)
        ensures
            r.bits == 0,
            r.wf(),
    {
        Confidence { bits: 0 }
    }

    /// Whether this score is at least the double with bit pattern `min`.
    pub fn at_least(self, min: u64) -> (r: bool)
        requires
            self.wf(),
        ensures
            r == at_least_spec(self.bits, min),
    {
        if min >= SIGN_BIT {
            min - SIGN_BIT <= INFINITY_BITS
        } else {
            self.bits >= min
        }
    }
}

/// Whether a score in range is at least the double with bit pattern `min`:
/// every score is at least a negative number or zero; none is at least NaN;
/// otherwise the bit patterns compare as the values do.
pub open spec fn at_least_spec(bits: u64, min: u64) -> bool {
    if min >= SIGN_BIT {
        min - SIGN_BIT <= INFINITY_BITS
    } else {
        bits >= min
    }
}

/// The double with bit pattern `bits`, clamped to `[0.0, 1.0]`: a negative
/// value (or a NaN with the sign bit) gives 0.0, a value above 1.0 (or
/// another NaN) gives 1.0, and a value in range is kept.
pub open spec fn clamp_spec(bits: u64) -> u64 {
    if bits >= SIGN_BIT {
        0
    } else if bits > ONE_BITS {
        ONE_BITS
    } else {
        bits
    }
}

/// Clamp the double with bit pattern `bits` to `[0.0, 1.0]`.
pub fn clamp_confidence(bits: u64) -> (r: Confidence)
    ensures
        r.bits == clamp_spec(bits),
        r.wf(),
{
    if bits >= SIGN_BIT {
        Confidence { bits: 0 }
    } else if bits > ONE_BITS {
        Confidence { bits: ONE_BITS }
    } else {
        Confidence { bits }
    }
}

} // verus!
