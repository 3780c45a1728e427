//! IEEE 754 binary32 numbers, held as their bit patterns.
//!
//! A number is read as sign, significand and quantum: its magnitude is
//! `significand * 2^quantum`. Every finite number, subnormal ones included,
//! has a quantum of at least -149, so all of them are whole multiples of
//! `2^-149`.

use vstd::prelude::*;

verus! {

/// The bit that holds the sign.
pub const SIGN_BIT: u32 = 0x8000_0000;

/// The magnitude bits of an infinity: all exponent bits set, no fraction.
pub const INFINITY_BITS: u32 = 0x7f80_0000;

/// The quiet not-a-number that every invalid operation of this library gives.
pub const NAN_BITS: u32 = 0x7fc0_0000;

/// The weight of the implicit leading bit of a normal significand, `2^23`.
pub const HIDDEN_BIT: u32 = 0x80_0000;

/// A binary32 number. Two values are equal when their bits are: `0.0` and
/// `-0.0` differ, and a not-a-number equals itself.
#[derive(Clone, Copy, Debug, PartialEq, Eq, Structural)]
pub struct Single {
    pub bits: u32,
}

impl Single {
    /// The sign bit is set.
    pub open spec fn negative(self) -> bool {
        self.bits >= SIGN_BIT
    }

    /// The bits without the sign.
    pub open spec fn magnitude(self) -> nat {
        if self.bits >= SIGN_BIT {
            (self.bits - SIGN_BIT) as nat
        } else {
            self.bits as nat
        }
    }

    /// The biased exponent field, 0 to 255.
    pub open spec fn exponent(self) -> nat {
        self.magnitude() / (HIDDEN_BIT as nat)
    }

    /// The 23 fraction bits.
    pub open spec fn fraction(self) -> nat {
        self.magnitude() % (HIDDEN_BIT as nat)
    }

    pub open spec fn nan(self) -> bool {
        self.magnitude() > INFINITY_BITS
    }

    pub open spec fn infinite(self) -> bool {
        self.magnitude() == INFINITY_BITS
    }

    pub open spec fn finite(self) -> bool {
        self.magnitude() < INFINITY_BITS
    }

    /// Positive or negative zero.
    pub open spec fn zero(self) -> bool {
        self.magnitude() == 0
    }

    /// The significand as a whole number: the fraction, with the implicit
    /// leading bit for a normal number.
    pub open spec fn significand(self) -> nat {
        if self.exponent() == 0 {
            self.fraction()
        } else {
            self.fraction() + HIDDEN_BIT as nat
        }
    }

    /// The power of two that one unit of the significand stands for.
    pub open spec fn quantum(self) -> int {
        if self.exponent() == 0 {
            -149
        } else {
            self.exponent() - 150
        }
    }

    /// The number with the given sign and magnitude bits.
    pub open spec fn compose(negative: bool, magnitude: nat) -> Single {
        Single { bits: (if negative { magnitude + SIGN_BIT } else { magnitude as int }) as u32 }
    }

    /// The same magnitude with the other sign.
    pub open spec fn negated(self) -> Single {
        Single::compose(!self.negative(), self.magnitude())
    }

    pub fn from_bits(bits: u32) -> (r: Single)
        ensures
            r.bits == bits,
    {
        Single { bits }
    }

    pub fn to_bits(self) -> (r: u32)
        ensures
            r == self.bits,
    {
        self.bits
    }

    /// Positive zero.
    pub fn positive_zero() -> (r: Single)
        ensures
            r.bits == 0,
    {
        Single { bits: 0 }
    }

    /// The quiet not-a-number of this library.
    pub fn quiet_nan() -> (r: Single)
        ensures
            r.bits == NAN_BITS,
            r.nan(),
    {
        Single { bits: NAN_BITS }
    }

    /// The infinity of the given sign.
    pub fn infinity(negative: bool) -> (r: Single)
        ensures
            r == Single::compose(negative, INFINITY_BITS as nat),
            r.infinite(),
            r.negative() == negative,
    {
        if negative {
            Single { bits: SIGN_BIT + INFINITY_BITS }
        } else {
            Single { bits: INFINITY_BITS }
        }
    }

    pub fn is_negative(self) -> (r: bool)
        ensures
            r == self.negative(),
    {
        self.bits >= SIGN_BIT
    }

    pub fn magnitude_bits(self) -> (r: u32)
        ensures
            r == self.magnitude(),
            r < SIGN_BIT,
    {
        if self.bits >= SIGN_BIT {
            self.bits - SIGN_BIT
        } else {
            self.bits
        }
    }

    pub fn is_nan(self) -> (r: bool)
        ensures
            r == self.nan(),
    {
        self.magnitude_bits() > INFINITY_BITS
    }

    pub fn is_infinite(self) -> (r: bool)
        ensures
            r == self.infinite(),
    {
        self.magnitude_bits() == INFINITY_BITS
    }

    pub fn is_finite(self) -> (r: bool)
        ensures
            r == self.finite(),
    {
        self.magnitude_bits() < INFINITY_BITS
    }

    pub fn is_zero(self) -> (r: bool)
        ensures
            r == self.zero(),
    {
        self.magnitude_bits() == 0
    }

    /// The significand, below `2^24`.
    pub fn significand_bits(self) -> (r: u32)
        ensures
            r == self.significand(),
            r < 2 * HIDDEN_BIT,
    {
        let magnitude: u32 = self.magnitude_bits();
        let fraction: u32 = magnitude % HIDDEN_BIT;
        if magnitude / HIDDEN_BIT == 0 {
            fraction
        } else {
            fraction + HIDDEN_BIT
        }
    }

    /// The quantum, from -149 to 105.
    pub fn quantum_exponent(self) -> (r: i32)
        ensures
            r == self.quantum(),
            -149 <= r <= 105,
            self.finite() ==> r <= 104,
    {
        let exponent: u32 = self.magnitude_bits() / HIDDEN_BIT;
        if exponent == 0 {
            -149
        } else {
            exponent as i32 - 150
        }
    }

    /// The number with the other sign; a not-a-number keeps its payload.
    pub fn negate(self) -> (r: Single)
        ensures
            r == self.negated(),
    {
        if self.bits >= SIGN_BIT {
            Single { bits: self.bits - SIGN_BIT }
        } else {
            Single { bits: self.bits + SIGN_BIT }
        }
    }
}

} // verus!
