//! Multiplication, addition and subtraction of binary32 numbers, each stated as
//! the exact result rounded to the nearest representable number.

use crate::rounding::{
    lemma_floor_log2_unique, pow2_u64, result_quantum, round_pack, rounded, rounded_magnitude,
};
use crate::single::{Single, INFINITY_BITS, NAN_BITS};
use vstd::arithmetic::div_mod::lemma_fundamental_div_mod_converse;
use vstd::arithmetic::power2::{
    lemma2_to64, lemma2_to64_rest, lemma_pow2_adds, lemma_pow2_strictly_increases,
    lemma_pow2_unfold, pow2,
};
use vstd::prelude::*;

verus! {

impl Single {
    /// The product of two numbers. Not-a-number where an operand is one, or
    /// where zero meets infinity; an infinity where one operand is infinite;
    /// else the exact product of the significands, at the sum of the quanta,
    /// rounded. The sign is negative where exactly one operand is.
    pub open spec fn product(self, rhs: Single) -> Single {
        let negative = self.negative() != rhs.negative();
        if self.nan() || rhs.nan() {
            Single { bits: NAN_BITS }
        } else if self.infinite() || rhs.infinite() {
            if self.zero() || rhs.zero() {
                Single { bits: NAN_BITS }
            } else {
                Single::compose(negative, INFINITY_BITS as nat)
            }
        } else {
            rounded(
                negative,
                self.significand() * rhs.significand(),
                self.quantum() + rhs.quantum(),
            )
        }
    }

    /// The value of a finite number in units of `2^base`, for a `base` that
    /// does not exceed its quantum.
    #[verifier::opaque]
    pub open spec fn units(self, base: int) -> int {
        let u = self.significand() * pow2((self.quantum() - base) as nat);
        if self.negative() {
            -(u as int)
        } else {
            u as int
        }
    }

    /// The sum of two finite numbers: both are expressed in units of the
    /// smaller quantum, added exactly, and the result is rounded. An exact
    /// zero is negative only where both operands are.
    pub open spec fn finite_sum(self, rhs: Single) -> Single {
        let base = if self.quantum() <= rhs.quantum() {
            self.quantum()
        } else {
            rhs.quantum()
        };
        let n = self.units(base) + rhs.units(base);
        if n == 0 {
            Single::compose(self.negative() && rhs.negative(), 0)
        } else if n < 0 {
            rounded(true, (-n) as nat, base)
        } else {
            rounded(false, n as nat, base)
        }
    }

    /// The sum of two numbers. Not-a-number where an operand is one, or where
    /// the operands are infinities of opposite sign; an infinite operand
    /// otherwise wins; finite operands give `finite_sum`.
    pub open spec fn sum(self, rhs: Single) -> Single {
        if self.nan() || rhs.nan() {
            Single { bits: NAN_BITS }
        } else if self.infinite() {
            if rhs.infinite() && self.negative() != rhs.negative() {
                Single { bits: NAN_BITS }
            } else {
                self
            }
        } else if rhs.infinite() {
            rhs
        } else {
            self.finite_sum(rhs)
        }
    }

    /// The difference of two numbers: the sum of the first and the negation of
    /// the second.
    pub open spec fn difference(self, rhs: Single) -> Single {
        self.sum(rhs.negated())
    }

    /// Multiplies two numbers.
    pub fn times(self, rhs: Single) -> (r: Single)
        ensures
            r == self.product(rhs),
    {
        if self.is_nan() || rhs.is_nan() {
            return Single::quiet_nan();
        }
        let negative: bool = self.is_negative() != rhs.is_negative();
        if self.is_infinite() || rhs.is_infinite() {
            if self.is_zero() || rhs.is_zero() {
                return Single::quiet_nan();
            }
            return Single::infinity(negative);
        }
        let a: u64 = self.significand_bits() as u64;
        let b: u64 = rhs.significand_bits() as u64;
        assert(a * b < 0x1_0000_0000_0000) by (nonlinear_arith)
            requires
                a < 0x100_0000,
                b < 0x100_0000,
        ;
        round_pack(negative, a * b, self.quantum_exponent() + rhs.quantum_exponent())
    }

    /// Adds two numbers.
    pub fn plus(self, rhs: Single) -> (r: Single)
        ensures
            r == self.sum(rhs),
    {
        if self.is_nan() || rhs.is_nan() {
            return Single::quiet_nan();
        }
        if self.is_infinite() {
            if rhs.is_infinite() && self.is_negative() != rhs.is_negative() {
                return Single::quiet_nan();
            }
            return self;
        }
        if rhs.is_infinite() {
            return rhs;
        }
        if self.quantum_exponent() >= rhs.quantum_exponent() {
            sum_ordered(self, rhs)
        } else {
            sum_ordered(rhs, self)
        }
    }

    /// Subtracts `rhs` from this number.
    pub fn minus(self, rhs: Single) -> (r: Single)
        ensures
            r == self.difference(rhs),
    {
        self.plus(rhs.negate())
    }
}

/// A normal significand `m` at a quantum `d` places above `lo_q`, moved by less
/// than `2^24` units of `2^lo_q`, rounds back to itself once `d` is large
/// enough: the move is under a quarter of the spacing of the numbers around it.
proof fn lemma_round_near(m: nat, d: nat, delta: int, lo_q: int)
    requires
        0x80_0000 <= m < 0x100_0000,
        d >= 27,
        -0x100_0000 < delta < 0x100_0000,
        lo_q >= -149,
        (lo_q + d + 149) * 0x80_0000 + m < INFINITY_BITS,
    ensures
        m * pow2(d) + delta > 0,
        rounded_magnitude((m * pow2(d) + delta) as nat, lo_q) == (lo_q + d + 149) * 0x80_0000 + m,
{
    reveal(rounded_magnitude);
    let unit = pow2(d);
    let half = pow2((d - 1) as nat);
    let n = (m * unit + delta) as nat;
    lemma2_to64();
    if d > 27 {
        lemma_pow2_strictly_increases(27, d);
    }
    assert(unit >= 0x800_0000);
    lemma_pow2_unfold(d);
    assert(unit == 2 * half);
    lemma_pow2_adds(22, d);
    lemma_pow2_adds(23, d);
    lemma_pow2_adds(24, d);
    assert(m * unit >= 0x80_0000 * unit) by (nonlinear_arith)
        requires
            m >= 0x80_0000,
            unit >= 0,
    ;
    assert(m * unit <= 0xff_ffff * unit) by (nonlinear_arith)
        requires
            m <= 0xff_ffff,
            unit >= 0,
    ;
    if delta >= 0 {
        assert(pow2(23 + d) <= n < pow2(23 + d + 1));
        lemma_floor_log2_unique(n, 23 + d);
        assert(result_quantum(n, lo_q) == d + lo_q);
        lemma_fundamental_div_mod_converse(n as int, unit as int, m as int, delta);
    } else if m > 0x80_0000 {
        assert((m - 1) * unit >= 0x80_0000 * unit) by (nonlinear_arith)
            requires
                m - 1 >= 0x80_0000,
                unit >= 0,
        ;
        assert(m * unit == (m - 1) * unit + unit) by (nonlinear_arith);
        assert(pow2(23 + d) <= n < pow2(23 + d + 1));
        lemma_floor_log2_unique(n, 23 + d);
        assert(result_quantum(n, lo_q) == d + lo_q);
        lemma_fundamental_div_mod_converse(n as int, unit as int, m - 1, unit + delta);
    } else {
        assert(m * unit == 0x100_0000 * half) by (nonlinear_arith)
            requires
                m == 0x80_0000,
                unit == 2 * half,
        ;
        assert(pow2(22 + d) <= n < pow2(22 + d + 1));
        lemma_floor_log2_unique(n, 22 + d);
        assert(result_quantum(n, lo_q) == d - 1 + lo_q);
        lemma_fundamental_div_mod_converse(n as int, half as int, 0xff_ffff, half + delta);
    }
}

/// Adds two finite numbers, the first with the larger quantum.
fn sum_ordered(hi: Single, lo: Single) -> (r: Single)
    requires
        hi.finite(),
        lo.finite(),
        hi.quantum() >= lo.quantum(),
    ensures
        r == hi.finite_sum(lo),
        r == lo.finite_sum(hi),
{
    let hi_m: u64 = hi.significand_bits() as u64;
    let lo_m: u64 = lo.significand_bits() as u64;
    let hi_q: i32 = hi.quantum_exponent();
    let lo_q: i32 = lo.quantum_exponent();
    let gap: i32 = hi_q - lo_q;
    proof {
        reveal(Single::units);
        lemma2_to64();
        lemma2_to64_rest();
        assert(lo.significand() * pow2(0) == lo.significand()) by (nonlinear_arith)
            requires
                pow2(0) == 1,
        ;
        assert(lo.units(lo_q as int) == if lo.negative() {
            -(lo_m as int)
        } else {
            lo_m as int
        });
        assert(hi.units(lo_q as int) == if hi.negative() {
            -(hi_m * pow2(gap as nat))
        } else {
            hi_m * pow2(gap as nat)
        });
    }
    if gap > 38 {
        proof {
            let delta: int = if hi.negative() == lo.negative() {
                lo_m as int
            } else {
                -(lo_m as int)
            };
            lemma_round_near(hi_m as nat, gap as nat, delta, lo_q as int);
        }
        return hi;
    }
    let unit: u64 = pow2_u64(gap as u64);
    proof {
        if gap < 38 {
            lemma_pow2_strictly_increases(gap as nat, 38);
        }
        assert(hi_m * unit < 0x4000_0000_0000_0000) by (nonlinear_arith)
            requires
                hi_m < 0x100_0000,
                unit <= 0x40_0000_0000,
        ;
    }
    let x: u64 = hi_m * unit;
    if hi.is_negative() == lo.is_negative() {
        round_pack(hi.is_negative(), x + lo_m, lo_q)
    } else if x > lo_m {
        round_pack(hi.is_negative(), x - lo_m, lo_q)
    } else if x < lo_m {
        round_pack(lo.is_negative(), lo_m - x, lo_q)
    } else {
        Single::positive_zero()
    }
}

} // verus!
