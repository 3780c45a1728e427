//! The numeric order of binary32 numbers.
//!
//! Numbers are compared by value: both zeros are equal, an infinity lies
//! beyond every finite number, and a not-a-number is in no relation to
//! anything, itself included.

use crate::single::Single;
use vstd::arithmetic::power2::{
    lemma2_to64, lemma_pow2_adds, lemma_pow2_pos, lemma_pow2_strictly_increases, lemma_pow2_unfold,
    pow2,
};
use vstd::prelude::*;

verus! {

impl Single {
    /// The magnitude in units of `2^-149`, a whole number for every finite
    /// value. An infinity stands at `2^277`, above all of them.
    #[verifier::opaque]
    pub open spec fn scaled_magnitude(self) -> nat {
        if self.infinite() {
            pow2(277)
        } else {
            self.significand() * pow2((self.quantum() + 149) as nat)
        }
    }

    /// The signed value in units of `2^-149`.
    pub open spec fn scaled_value(self) -> int {
        if self.negative() {
            -(self.scaled_magnitude() as int)
        } else {
            self.scaled_magnitude() as int
        }
    }

    /// `self >= rhs`.
    pub open spec fn at_least(self, rhs: Single) -> bool {
        !self.nan() && !rhs.nan() && self.scaled_value() >= rhs.scaled_value()
    }

    /// `self <= rhs`.
    pub open spec fn at_most(self, rhs: Single) -> bool {
        !self.nan() && !rhs.nan() && self.scaled_value() <= rhs.scaled_value()
    }

    /// `self < rhs`.
    pub open spec fn below(self, rhs: Single) -> bool {
        !self.nan() && !rhs.nan() && self.scaled_value() < rhs.scaled_value()
    }

    /// The magnitude bits with the sign applied.
    pub open spec fn signed_magnitude(self) -> int {
        if self.negative() {
            -(self.magnitude() as int)
        } else {
            self.magnitude() as int
        }
    }

    fn signed_magnitude_bits(self) -> (k: i64)
        ensures
            k == self.signed_magnitude(),
    {
        let magnitude: i64 = self.magnitude_bits() as i64;
        if self.is_negative() {
            -magnitude
        } else {
            magnitude
        }
    }

    /// Tests `self >= rhs`.
    pub fn is_at_least(self, rhs: Single) -> (r: bool)
        ensures
            r == self.at_least(rhs),
    {
        if self.is_nan() || rhs.is_nan() {
            return false;
        }
        proof {
            lemma_order_by_bits(rhs, self);
        }
        self.signed_magnitude_bits() >= rhs.signed_magnitude_bits()
    }

    /// Tests `self <= rhs`.
    pub fn is_at_most(self, rhs: Single) -> (r: bool)
        ensures
            r == self.at_most(rhs),
    {
        if self.is_nan() || rhs.is_nan() {
            return false;
        }
        proof {
            lemma_order_by_bits(self, rhs);
        }
        self.signed_magnitude_bits() <= rhs.signed_magnitude_bits()
    }

    /// Tests `self < rhs`.
    pub fn is_below(self, rhs: Single) -> (r: bool)
        ensures
            r == self.below(rhs),
    {
        if self.is_nan() || rhs.is_nan() {
            return false;
        }
        proof {
            lemma_order_by_bits(rhs, self);
        }
        self.signed_magnitude_bits() < rhs.signed_magnitude_bits()
    }
}

/// Of two numbers, the one with the larger magnitude bits has the larger
/// magnitude.
pub proof fn lemma_scaled_magnitude_increases(a: Single, b: Single)
    requires
        !a.nan(),
        !b.nan(),
        a.magnitude() < b.magnitude(),
    ensures
        a.scaled_magnitude() < b.scaled_magnitude(),
{
    reveal(Single::scaled_magnitude);
    lemma2_to64();
    let ma = a.significand();
    let mb = b.significand();
    let pa = pow2((a.quantum() + 149) as nat);
    lemma_pow2_pos((a.quantum() + 149) as nat);
    if b.infinite() {
        lemma_pow2_adds(24, 253);
        if a.quantum() + 149 < 253 {
            lemma_pow2_strictly_increases((a.quantum() + 149) as nat, 253);
        }
        lemma_pow2_pos(253);
        assert(ma * pa < 0x100_0000 * pow2(253)) by (nonlinear_arith)
            requires
                ma < 0x100_0000,
                0 < pa <= pow2(253),
        ;
    } else {
        let pb = pow2((b.quantum() + 149) as nat);
        lemma_pow2_pos((b.quantum() + 149) as nat);
        if a.exponent() == b.exponent() {
            assert(ma * pa < mb * pa) by (nonlinear_arith)
                requires
                    ma < mb,
                    pa > 0,
            ;
        } else {
            assert(a.exponent() < b.exponent());
            assert(mb * pb >= 0x80_0000 * pb) by (nonlinear_arith)
                requires
                    mb >= 0x80_0000,
                    pb > 0,
            ;
            if a.exponent() == 0 {
                assert(ma * pa == ma) by (nonlinear_arith)
                    requires
                        pa == 1,
                ;
            } else {
                lemma_pow2_unfold(a.exponent());
                if a.exponent() < b.exponent() - 1 {
                    lemma_pow2_strictly_increases(a.exponent(), (b.exponent() - 1) as nat);
                }
                assert(2 * pa <= pb);
                assert(ma * pa < 0x100_0000 * pa) by (nonlinear_arith)
                    requires
                        ma < 0x100_0000,
                        pa > 0,
                ;
            }
        }
    }
}

/// The order of the signed magnitude bits is the order of the values.
pub proof fn lemma_order_by_bits(a: Single, b: Single)
    requires
        !a.nan(),
        !b.nan(),
    ensures
        (a.signed_magnitude() <= b.signed_magnitude()) == (a.scaled_value() <= b.scaled_value()),
{
    reveal(Single::scaled_magnitude);
    let zero = Single { bits: 0 };
    assert(zero.scaled_magnitude() == 0) by {
        assert(zero.magnitude() == 0);
        assert(zero.significand() == 0);
        assert(0 * pow2((zero.quantum() + 149) as nat) == 0) by (nonlinear_arith);
    }
    if a.magnitude() > 0 {
        lemma_scaled_magnitude_increases(zero, a);
    } else {
        assert(a.scaled_magnitude() == zero.scaled_magnitude());
    }
    if b.magnitude() > 0 {
        lemma_scaled_magnitude_increases(zero, b);
    } else {
        assert(b.scaled_magnitude() == zero.scaled_magnitude());
    }
    if a.magnitude() < b.magnitude() {
        lemma_scaled_magnitude_increases(a, b);
    } else if b.magnitude() < a.magnitude() {
        lemma_scaled_magnitude_increases(b, a);
    } else {
        assert(a.scaled_magnitude() == b.scaled_magnitude());
    }
}

} // verus!
