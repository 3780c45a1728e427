//! Rounding of an exact magnitude `p * 2^e` to the nearest binary32 number,
//! ties to the even significand.

use crate::single::{Single, INFINITY_BITS, SIGN_BIT};
use vstd::arithmetic::div_mod::{lemma_basic_div, lemma_fundamental_div_mod, lemma_small_mod};
use vstd::arithmetic::power2::{
    lemma2_to64, lemma_pow2_adds, lemma_pow2_pos, lemma_pow2_strictly_increases,
    lemma_pow2_unfold, pow2,
};
use vstd::bits::{lemma_u64_pow2_no_overflow, lemma_u64_shl_is_mul};
use vstd::prelude::*;

verus! {

/// The position of the leading one bit of `p`: the largest `k` with
/// `2^k <= p`. Zero for `p == 0`.
pub open spec fn floor_log2(p: nat) -> nat
    decreases p,
{
    if p <= 1 {
        0
    } else {
        1 + floor_log2(p / 2)
    }
}

/// The quotient of `n` by `d` rounded to the nearest whole number; where `n / d`
/// lies halfway between two, the even one.
pub open spec fn div_round_half_even(n: nat, d: nat) -> nat {
    let quotient = n / d;
    let remainder = n % d;
    if 2 * remainder < d || (2 * remainder == d && quotient % 2 == 0) {
        quotient
    } else {
        quotient + 1
    }
}

/// The quantum of the binary32 number nearest to `p * 2^e`: 23 places below
/// the leading bit, and never below that of the subnormal numbers.
pub open spec fn result_quantum(p: nat, e: int) -> int {
    let q = floor_log2(p) + e - 23;
    if q < -149 {
        -149
    } else {
        q
    }
}

/// The significand of the binary32 number nearest to `p * 2^e`: the exact
/// magnitude expressed in units of the result's quantum, and rounded where it
/// is not a whole number of them.
pub open spec fn rounded_significand(p: nat, e: int) -> nat {
    let q = result_quantum(p, e);
    if e >= q {
        p * pow2((e - q) as nat)
    } else {
        div_round_half_even(p, pow2((q - e) as nat))
    }
}

/// The magnitude bits of the binary32 number nearest to `p * 2^e`, for
/// `p > 0`. Adding the significand to the exponent field of the quantum places
/// it: a significand that reaches `2^23` or `2^24` carries into the exponent.
/// A magnitude that reaches the infinity's bits is infinite.
#[verifier::opaque]
pub open spec fn rounded_magnitude(p: nat, e: int) -> nat {
    let bits = (result_quantum(p, e) + 149) * 0x80_0000 + rounded_significand(p, e);
    if bits >= INFINITY_BITS {
        INFINITY_BITS as nat
    } else {
        bits as nat
    }
}

/// The binary32 number nearest to `p * 2^e` with the given sign. A `p` of zero
/// gives the zero of that sign.
pub open spec fn rounded(negative: bool, p: nat, e: int) -> Single {
    Single::compose(
        negative,
        if p == 0 {
            0
        } else {
            rounded_magnitude(p, e)
        },
    )
}

/// `2^floor_log2(p) <= p < 2^(floor_log2(p) + 1)`.
pub proof fn lemma_floor_log2_bounds(p: nat)
    requires
        p > 0,
    ensures
        pow2(floor_log2(p)) <= p < pow2(floor_log2(p) + 1),
    decreases p,
{
    if p == 1 {
        lemma2_to64();
    } else {
        let h = p / 2;
        lemma_floor_log2_bounds(h);
        let l = floor_log2(h);
        lemma_pow2_unfold(l + 1);
        lemma_pow2_unfold(l + 2);
        assert(floor_log2(p) == l + 1);
    }
}

/// A `p` between `2^k` and `2^(k + 1)` has its leading bit at `k`.
pub proof fn lemma_floor_log2_unique(p: nat, k: nat)
    requires
        pow2(k) <= p < pow2(k + 1),
    ensures
        floor_log2(p) == k,
{
    lemma_pow2_pos(k);
    lemma_floor_log2_bounds(p);
    let l = floor_log2(p);
    if l < k {
        if l + 1 < k {
            lemma_pow2_strictly_increases(l + 1, k);
        }
    } else if l > k {
        if k + 1 < l {
            lemma_pow2_strictly_increases(k + 1, l);
        }
    }
}

/// The rounded quotient is a whole number nearest to `n / d`: the two differ by
/// a half at most. Where they differ by exactly a half, the rounded quotient
/// is even.
pub proof fn lemma_rounded_quotient_is_nearest(n: nat, d: nat)
    requires
        d > 0,
    ensures
        2 * (div_round_half_even(n, d) * d - n) <= d,
        2 * (n - div_round_half_even(n, d) * d) <= d,
        2 * (div_round_half_even(n, d) * d - n) == d || 2 * (n - div_round_half_even(n, d) * d)
            == d ==> div_round_half_even(n, d) % 2 == 0,
{
    let quotient = n / d;
    lemma_fundamental_div_mod(n as int, d as int);
    assert(d * quotient == quotient * d) by (nonlinear_arith);
    assert((quotient + 1) * d == quotient * d + d) by (nonlinear_arith);
}

/// Rounding leaves a binary32 number as it is: the magnitude of a finite
/// number, given by its significand and quantum, rounds to that number.
pub proof fn lemma_numbers_round_to_themselves(x: Single)
    requires
        x.finite(),
    ensures
        rounded(x.negative(), x.significand(), x.quantum()) == x,
{
    reveal(rounded_magnitude);
    lemma2_to64();
    let p = x.significand();
    if p > 0 {
        if x.exponent() == 0 {
            lemma_floor_log2_bounds(p);
            if floor_log2(p) > 23 {
                lemma_pow2_strictly_increases(23, floor_log2(p));
            }
        } else {
            lemma_floor_log2_unique(p, 23);
        }
        assert(p * pow2(0) == p) by (nonlinear_arith)
            requires
                pow2(0) == 1,
        ;
    }
}

/// `2^k` as a machine word.
pub(crate) fn pow2_u64(k: u64) -> (r: u64)
    requires
        k < 64,
    ensures
        r == pow2(k as nat),
        r > 0,
{
    proof {
        lemma_u64_pow2_no_overflow(k as nat);
        lemma_u64_shl_is_mul(1, k);
    }
    1u64 << k
}

/// The position of the leading one bit of `p`.
pub(crate) fn leading_bit(p: u64) -> (l: u32)
    requires
        p > 0,
    ensures
        l == floor_log2(p as nat),
        l < 64,
{
    proof {
        lemma_floor_log2_bounds(p as nat);
        lemma2_to64();
        if floor_log2(p as nat) > 64 {
            lemma_pow2_strictly_increases(64, floor_log2(p as nat));
        }
    }
    let mut t: u64 = p;
    let mut l: u32 = 0;
    while t > 1
        invariant
            t >= 1,
            l + floor_log2(t as nat) == floor_log2(p as nat),
            floor_log2(p as nat) < 64,
        decreases t,
    {
        t = t / 2;
        l = l + 1;
    }
    l
}

/// Rounds the exact magnitude `p * 2^e` to binary32.
pub(crate) fn round_pack(negative: bool, p: u64, e: i32) -> (r: Single)
    requires
        p < 0x8000_0000_0000_0000,
        -1000 <= e <= 1000,
    ensures
        r == rounded(negative, p as nat, e as int),
{
    let sign: u32 = if negative {
        SIGN_BIT
    } else {
        0
    };
    if p == 0 {
        return Single { bits: sign };
    }
    proof {
        reveal(rounded_magnitude);
    }
    let l: i32 = leading_bit(p) as i32;
    let q0: i32 = l + e - 23;
    let q: i32 = if q0 < -149 {
        -149
    } else {
        q0
    };
    proof {
        lemma_floor_log2_bounds(p as nat);
    }
    let m: u64;
    if e >= q {
        let k: u64 = (e - q) as u64;
        let unit: u64 = pow2_u64(k);
        proof {
            let top = (l + 1) as nat;
            lemma_pow2_adds(top, k as nat);
            lemma2_to64();
            if top + k < 24 {
                lemma_pow2_strictly_increases(top + k as nat, 24);
            }
            assert(p * unit < pow2(top) * unit) by (nonlinear_arith)
                requires
                    p < pow2(top),
                    unit > 0,
            ;
        }
        m = p * unit;
    } else {
        let s: u64 = (q - e) as u64;
        if s >= 64 {
            proof {
                lemma2_to64();
                if s > 64 {
                    lemma_pow2_strictly_increases(64, s as nat);
                }
                lemma_basic_div(p as int, pow2(s as nat) as int);
                lemma_small_mod(p as nat, pow2(s as nat));
            }
            m = 0;
        } else {
            let unit: u64 = pow2_u64(s);
            let quotient: u64 = p / unit;
            let remainder: u64 = p % unit;
            let rest: u64 = unit - remainder;
            if remainder > rest || (remainder == rest && quotient % 2 == 1) {
                m = quotient + 1;
            } else {
                m = quotient;
            }
        }
    }
    let field: u64 = (q + 149) as u64;
    let bits: u64 = field * 0x80_0000 + m;
    let magnitude: u32 = if bits >= INFINITY_BITS as u64 {
        INFINITY_BITS
    } else {
        bits as u32
    };
    Single { bits: sign + magnitude }
}

} // verus!
