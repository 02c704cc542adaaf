//! Binary32 values carried by their bit pattern.
use vstd::prelude::*;

verus! {

/// Largest magnitude (sign bit cleared) that is not a NaN: the pattern of +infinity.
pub const INFINITY_BITS: u32 = 0x7f80_0000;

/// The pattern of `+0.0`.
pub const ZERO_BITS: u32 = 0;

/// The pattern of `1.0`.
pub const ONE_BITS: u32 = 0x3f80_0000;

/// The pattern of `0.5`.
pub const HALF_BITS: u32 = 0x3f00_0000;

/// The sign bit of a binary32 pattern.
pub const SIGN_BIT: u32 = 0x8000_0000;

/// A binary32 floating-point number, held as its IEEE-754 bit pattern.
///
/// The library never does arithmetic on these values: it stores them, compares them for
/// identity, and orders a few of them against constants.
#[derive(Clone, Copy, Debug, PartialEq, Eq, Structural, Hash)]
pub struct Scalar {
    pub bits: u32,
}

/// The magnitude part of a pattern: everything but the sign bit.
pub open spec fn magnitude(bits: u32) -> nat {
    (bits % SIGN_BIT) as nat
}

/// Whether the sign bit is set (this includes negative zero).
pub open spec fn sign_set(bits: u32) -> bool {
    bits >= SIGN_BIT
}

/// Whether a pattern encodes a NaN.
pub open spec fn spec_is_nan(bits: u32) -> bool {
    magnitude(bits) > INFINITY_BITS
}

/// IEEE-754 `a < b` on two binary32 patterns: false when either is a NaN, and the two zeros
/// compare equal.
pub open spec fn spec_lt(a: u32, b: u32) -> bool {
    &&& !spec_is_nan(a)
    &&& !spec_is_nan(b)
    &&& !(magnitude(a) == 0 && magnitude(b) == 0)
    &&& if sign_set(a) && !sign_set(b) {
        true
    } else if !sign_set(a) && sign_set(b) {
        false
    } else if !sign_set(a) {
        magnitude(a) < magnitude(b)
    } else {
        magnitude(a) > magnitude(b)
    }
}

impl Scalar {
    pub fn zero() -> (r: Scalar)
        ensures
            r.bits == ZERO_BITS,
    {
        Scalar { bits: ZERO_BITS }
    }

    pub fn one() -> (r: Scalar)
        ensures
            r.bits == ONE_BITS,
    {
        Scalar { bits: ONE_BITS }
    }

    pub fn from_bits(bits: u32) -> (r: Scalar)
        ensures
            r.bits == bits,
    {
        Scalar { bits }
    }

    pub fn is_nan(self) -> (r: bool)
        ensures
            r == spec_is_nan(self.bits),
    {
        self.bits % SIGN_BIT > INFINITY_BITS
    }

    /// `self < other` with IEEE-754 semantics.
    pub fn lt(self, other: Scalar) -> (r: bool)
        ensures
            r == spec_lt(self.bits, other.bits),
    {
        let a = self.bits;
        let b = other.bits;
        let ma = a % SIGN_BIT;
        let mb = b % SIGN_BIT;
        if ma > INFINITY_BITS || mb > INFINITY_BITS {
            return false;
        }
        if ma == 0 && mb == 0 {
            return false;
        }
        let na = a >= SIGN_BIT;
        let nb = b >= SIGN_BIT;
        if na && !nb {
            true
        } else if !na && nb {
            false
        } else if !na {
            ma < mb
        } else {
            ma > mb
        }
    }
}

} // verus!
