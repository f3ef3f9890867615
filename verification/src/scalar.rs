//! `Scalar` — a single-precision number as the ABI carries it.
//!
//! The descriptors hold plenty of numbers (speeds, colours, durations), but the
//! logic in this crate never does arithmetic on any of them: it carries them
//! through, asks whether they are finite, and compares them. So a number is held
//! by its IEEE-754 binary32 bit pattern, and the handful of questions the ABI asks
//! of one are answered from the bits, with each answer stated exactly here.

use vstd::prelude::*;

verus! {

/// An IEEE-754 binary32 value, held by its bit pattern.
#[derive(Clone, Copy, PartialEq, Eq, Debug)]
pub struct Scalar {
    pub bits: u32,
}

/// The biased exponent field of a binary32 bit pattern.
pub open spec fn exponent_of(bits: u32) -> u32 {
    (bits >> 23u32) & 0xffu32
}

/// The magnitude (everything but the sign bit) of a binary32 bit pattern.
pub open spec fn magnitude_of(bits: u32) -> u32 {
    bits & 0x7fff_ffffu32
}

/// Whether the sign bit is set.
pub open spec fn sign_of(bits: u32) -> bool {
    bits & 0x8000_0000u32 != 0
}

/// A finite value: neither an infinity nor a NaN.
pub open spec fn finite_bits(bits: u32) -> bool {
    exponent_of(bits) != 0xff
}

/// A NaN: all-ones exponent and a non-zero fraction.
pub open spec fn nan_bits(bits: u32) -> bool {
    magnitude_of(bits) > 0x7f80_0000u32
}

/// The position of a non-NaN value on the number line: binary32 magnitudes are
/// ordered like the integers their bits spell, and the sign flips the side. Both
/// zeros sit at `0`, which is why `-0.0 == 0.0`.
pub open spec fn order_key(bits: u32) -> int {
    if sign_of(bits) {
        -(magnitude_of(bits) as int)
    } else {
        magnitude_of(bits) as int
    }
}

impl Default for Scalar {
    /// `0.0`, as `f32::default` is.
    fn default() -> (r: Self)
        ensures
            r == Scalar::zero_spec(),
    {
        Scalar { bits: 0 }
    }
}

impl Scalar {
    /// `0.0`.
    pub open spec fn zero_spec() -> Scalar {
        Scalar { bits: 0 }
    }

    /// The value of `f32::is_finite`.
    pub open spec fn spec_is_finite(self) -> bool {
        finite_bits(self.bits)
    }

    /// The value of `f32::is_nan`.
    pub open spec fn spec_is_nan(self) -> bool {
        nan_bits(self.bits)
    }

    /// The value of `self < other` on two binary32 numbers (false if either is a NaN).
    pub open spec fn spec_lt(self, other: Scalar) -> bool {
        !self.spec_is_nan() && !other.spec_is_nan() && order_key(self.bits) < order_key(other.bits)
    }

    /// The value of `self <= other` (false if either is a NaN).
    pub open spec fn spec_le(self, other: Scalar) -> bool {
        !self.spec_is_nan() && !other.spec_is_nan() && order_key(self.bits) <= order_key(other.bits)
    }

    /// The number whose bit pattern is `bits`.
    pub fn from_bits(bits: u32) -> (s: Scalar)
        ensures
            s.bits == bits,
    {
        Scalar { bits }
    }

    /// `0.0`.
    pub fn zero() -> (s: Scalar)
        ensures
            s == Scalar::zero_spec(),
    {
        Scalar { bits: 0 }
    }

    /// Whether the number is finite (`f32::is_finite`).
    pub fn is_finite(self) -> (r: bool)
        ensures
            r == self.spec_is_finite(),
    {
        (self.bits >> 23u32) & 0xffu32 != 0xffu32
    }

    /// Whether the number is a NaN (`f32::is_nan`).
    pub fn is_nan(self) -> (r: bool)
        ensures
            r == self.spec_is_nan(),
    {
        self.bits & 0x7fff_ffffu32 > 0x7f80_0000u32
    }

    /// `self < other`, with the IEEE-754 answer for NaNs (always false).
    pub fn lt(self, other: Scalar) -> (r: bool)
        ensures
            r == self.spec_lt(other),
    {
        if self.is_nan() || other.is_nan() {
            return false;
        }
        let a = self.bits & 0x7fff_ffffu32;
        let b = other.bits & 0x7fff_ffffu32;
        let sa = self.bits & 0x8000_0000u32 != 0;
        let sb = other.bits & 0x8000_0000u32 != 0;
        if sa && sb {
            b < a
        } else if sa {
            // -a < +b unless both are zero
            a != 0 || b != 0
        } else if sb {
            false
        } else {
            a < b
        }
    }

    /// `self <= other`, with the IEEE-754 answer for NaNs (always false).
    pub fn le(self, other: Scalar) -> (r: bool)
        ensures
            r == self.spec_le(other),
    {
        if self.is_nan() || other.is_nan() {
            return false;
        }
        !other.lt(self)
    }

    /// `self < 0.0`.
    pub fn is_negative(self) -> (r: bool)
        ensures
            r == self.spec_lt(Scalar::zero_spec()),
    {
        self.lt(Scalar::zero())
    }

    /// `self > 0.0`.
    pub fn is_positive(self) -> (r: bool)
        ensures
            r == Scalar::zero_spec().spec_lt(self),
    {
        Scalar::zero().lt(self)
    }
}

} // verus!
