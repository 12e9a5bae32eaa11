//! Tempo values in beats per minute.
//!
//! A tempo is carried as the IEEE-754 binary64 bit pattern of its value, so it
//! can be stored, compared for identity and checked for positivity without
//! floating-point arithmetic.
use vstd::prelude::*;

verus! {

/// The sign bit of a binary64 value.
pub const SIGN_BIT: u64 = 0x8000_0000_0000_0000u64;

/// The bit pattern of positive infinity; larger magnitudes are NaNs.
pub const INFINITY_BITS: u64 = 0x7FF0_0000_0000_0000u64;

/// A tempo in beats per minute, held as the bit pattern of a binary64 value.
#[derive(Clone, Copy, Debug, PartialEq, Eq, Structural)]
pub struct Tempo {
    pub bits: u64,
}

impl Tempo {
    /// Whether the sign bit is set.
    pub open spec fn sign_set(self) -> bool {
        self.bits >= SIGN_BIT
    }

    /// The bit pattern with the sign bit cleared.
    pub open spec fn magnitude(self) -> int {
        if self.sign_set() {
            self.bits - SIGN_BIT
        } else {
            self.bits as int
        }
    }

    /// Whether the value is a NaN (all exponent bits set, non-zero fraction).
    pub open spec fn is_nan(self) -> bool {
        self.magnitude() > INFINITY_BITS
    }

    /// Whether `value <= 0.0` holds under IEEE-754 comparison: true of both
    /// zeros and of every non-NaN value with the sign bit set; false of NaNs.
    pub open spec fn is_at_most_zero(self) -> bool {
        self.magnitude() == 0 || (self.sign_set() && !self.is_nan())
    }

    /// A tempo from the bit pattern of a binary64 value.
    pub fn from_bits(bits: u64) -> (t: Tempo)
        ensures
            t.bits == bits,
    {
        Tempo { bits }
    }

    /// The bit pattern of this tempo's binary64 value.
    pub fn to_bits(&self) -> (bits: u64)
        ensures
            bits == self.bits,
    {
        self.bits
    }

    /// Decides `value <= 0.0` for this tempo's value.
    pub fn at_most_zero(&self) -> (r: bool)
        ensures
            r == self.is_at_most_zero(),
    {
        let magnitude: u64 = if self.bits >= SIGN_BIT {
            self.bits - SIGN_BIT
        } else {
            self.bits
        };
        magnitude == 0 || (self.bits >= SIGN_BIT && magnitude <= INFINITY_BITS)
    }
}

} // verus!
