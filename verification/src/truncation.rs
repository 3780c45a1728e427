//! Conversion of binary32 numbers to whole numbers: the fraction is dropped,
//! what lies outside the target's range is clamped to it, and a not-a-number
//! gives zero.

use crate::rounding::pow2_u64;
use crate::single::{Single, HIDDEN_BIT};
use vstd::arithmetic::div_mod::{
    lemma_basic_div, lemma_div_by_multiple, lemma_div_multiples_vanish_quotient,
};
use vstd::arithmetic::power2::{
    lemma2_to64, lemma_pow2_adds, lemma_pow2_pos, lemma_pow2_strictly_increases, pow2,
};
use vstd::prelude::*;

verus! {

impl Single {
    /// The whole part of the magnitude.
    pub open spec fn whole_magnitude(self) -> nat {
        self.scaled_magnitude() / pow2(149)
    }

    /// The number as a signed 32-bit integer.
    pub open spec fn as_i32(self) -> i32 {
        if self.nan() {
            0
        } else if self.negative() {
            if self.whole_magnitude() >= 0x8000_0000 {
                i32::MIN
            } else {
                (-(self.whole_magnitude() as int)) as i32
            }
        } else {
            if self.whole_magnitude() > 0x7fff_ffff {
                i32::MAX
            } else {
                self.whole_magnitude() as i32
            }
        }
    }

    /// The number as an unsigned 32-bit integer.
    pub open spec fn as_u32(self) -> u32 {
        if self.nan() || self.negative() {
            0
        } else if self.whole_magnitude() > 0xffff_ffff {
            u32::MAX
        } else {
            self.whole_magnitude() as u32
        }
    }

    /// The whole part of the magnitude, or `2^32` where it is larger.
    fn whole_magnitude_capped(self) -> (w: u64)
        requires
            !self.nan(),
        ensures
            w == if self.whole_magnitude() > 0x1_0000_0000 {
                0x1_0000_0000
            } else {
                self.whole_magnitude()
            },
    {
        let exponent: u32 = self.magnitude_bits() / HIDDEN_BIT;
        let m: u64 = self.significand_bits() as u64;
        proof {
            reveal(Single::scaled_magnitude);
            lemma2_to64();
            lemma_pow2_pos(149);
        }
        if exponent >= 159 {
            proof {
                if self.infinite() {
                    lemma_pow2_adds(128, 149);
                    lemma_div_by_multiple(pow2(128) as int, pow2(149) as int);
                    lemma_pow2_strictly_increases(32, 128);
                } else {
                    let q = (exponent - 150) as nat;
                    lemma_pow2_adds(q, 149);
                    if q > 9 {
                        lemma_pow2_strictly_increases(9, q);
                    }
                    assert(m * (pow2(q) * pow2(149)) == (m * pow2(q)) * pow2(149))
                        by (nonlinear_arith);
                    assert(m * pow2(q) >= 0x1_0000_0000) by (nonlinear_arith)
                        requires
                            m >= 0x80_0000,
                            pow2(q) >= 0x200,
                    ;
                    lemma_div_by_multiple((m * pow2(q)) as int, pow2(149) as int);
                }
            }
            return 0x1_0000_0000;
        }
        if exponent < 127 {
            proof {
                let k = (self.quantum() + 149) as nat;
                lemma_pow2_adds(24, 125);
                if k < 125 {
                    lemma_pow2_strictly_increases(k, 125);
                }
                lemma_pow2_pos(k);
                assert(m * pow2(k) < 0x100_0000 * pow2(125)) by (nonlinear_arith)
                    requires
                        m < 0x100_0000,
                        0 < pow2(k) <= pow2(125),
                ;
                lemma_basic_div((m * pow2(k)) as int, pow2(149) as int);
            }
            return 0;
        }
        if exponent >= 150 {
            let unit: u64 = pow2_u64((exponent - 150) as u64);
            proof {
                let q = (exponent - 150) as nat;
                lemma_pow2_adds(q, 149);
                if q < 8 {
                    lemma_pow2_strictly_increases(q, 8);
                }
                assert(m * (pow2(q) * pow2(149)) == (m * pow2(q)) * pow2(149))
                    by (nonlinear_arith);
                assert(m * unit <= 0x1_0000_0000) by (nonlinear_arith)
                    requires
                        m <= 0x100_0000,
                        unit <= 0x100,
                ;
                lemma_div_by_multiple((m * pow2(q)) as int, pow2(149) as int);
            }
            m * unit
        } else {
            let unit: u64 = pow2_u64((150 - exponent) as u64);
            proof {
                let k = (150 - exponent) as nat;
                let rest = pow2((149 - k) as nat);
                lemma_pow2_adds((149 - k) as nat, k);
                lemma_pow2_pos((149 - k) as nat);
                lemma_div_multiples_vanish_quotient(rest as int, m as int, pow2(k) as int);
                assert(m * rest == rest * m) by (nonlinear_arith);
            }
            m / unit
        }
    }

    /// Converts to a signed 32-bit integer.
    pub fn to_i32(self) -> (r: i32)
        ensures
            r == self.as_i32(),
    {
        if self.is_nan() {
            return 0;
        }
        let w: u64 = self.whole_magnitude_capped();
        if self.is_negative() {
            if w >= 0x8000_0000 {
                i32::MIN
            } else {
                -(w as i32)
            }
        } else {
            if w > 0x7fff_ffff {
                i32::MAX
            } else {
                w as i32
            }
        }
    }

    /// Converts to an unsigned 32-bit integer.
    pub fn to_u32(self) -> (r: u32)
        ensures
            r == self.as_u32(),
    {
        if self.is_nan() || self.is_negative() {
            return 0;
        }
        let w: u64 = self.whole_magnitude_capped();
        if w > 0xffff_ffff {
            u32::MAX
        } else {
            w as u32
        }
    }
}

} // verus!
