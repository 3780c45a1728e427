//! Rounding gives a nearest number: no binary32 number lies closer to the
//! exact magnitude than the rounded one.

use crate::rounding::{
    floor_log2, lemma_floor_log2_bounds, lemma_rounded_quotient_is_nearest, result_quantum,
    rounded_magnitude, rounded_significand,
};
use crate::single::{Single, INFINITY_BITS};
use vstd::arithmetic::div_mod::{
    lemma_div_by_multiple, lemma_div_is_ordered, lemma_multiply_divide_lt,
};
use vstd::arithmetic::power2::{
    lemma2_to64, lemma_pow2_adds, lemma_pow2_pos, lemma_pow2_strictly_increases, lemma_pow2_unfold,
    pow2,
};
use vstd::prelude::*;

verus! {

/// How far two whole numbers are apart.
pub open spec fn distance(a: int, b: int) -> int {
    if a >= b {
        a - b
    } else {
        b - a
    }
}

/// The rounded significand has at most 24 bits and one more value, `2^24`,
/// which carries into the exponent. Above the subnormal range it has its
/// leading bit set.
pub proof fn lemma_rounded_significand_range(p: nat, e: int)
    requires
        p > 0,
    ensures
        rounded_significand(p, e) <= 0x100_0000,
        result_quantum(p, e) > -149 ==> rounded_significand(p, e) >= 0x80_0000,
{
    let l = floor_log2(p);
    let q = result_quantum(p, e);
    lemma_floor_log2_bounds(p);
    lemma2_to64();
    if e >= q {
        let k = (e - q) as nat;
        lemma_pow2_adds(l + 1, k);
        if l + 1 + k < 24 {
            lemma_pow2_strictly_increases(l + 1 + k, 24);
        }
        lemma_pow2_pos(k);
        assert(p * pow2(k) < pow2(l + 1) * pow2(k)) by (nonlinear_arith)
            requires
                p < pow2(l + 1),
                pow2(k) > 0,
        ;
        if q > -149 {
            lemma_pow2_adds(l, k);
            assert(p * pow2(k) >= pow2(l) * pow2(k)) by (nonlinear_arith)
                requires
                    p >= pow2(l),
                    pow2(k) > 0,
            ;
        }
    } else {
        let s = (q - e) as nat;
        let d = pow2(s);
        lemma_pow2_pos(s);
        lemma_pow2_adds(s, 24);
        if l + 1 < s + 24 {
            lemma_pow2_strictly_increases(l + 1, s + 24);
        }
        assert(p < d * 0x100_0000);
        lemma_multiply_divide_lt(p as int, d as int, 0x100_0000);
        if q > -149 {
            lemma_pow2_adds(23, s);
            assert(0x80_0000 * d <= p);
            lemma_div_is_ordered((0x80_0000 * d) as int, p as int, d as int);
            lemma_div_by_multiple(0x80_0000, d as int);
        }
    }
}

/// The number whose bits are the exponent field of a quantum `q` plus a
/// significand `m` stands for `m * 2^q`. Here it is said in units of `2^t`.
pub proof fn lemma_packed_number_units(q: int, m: nat, t: int)
    requires
        -149 <= q,
        t <= -149,
        m <= 0x100_0000,
        q > -149 ==> m >= 0x80_0000,
        (q + 149) * 0x80_0000 + m < INFINITY_BITS,
    ensures
        Single::compose(false, ((q + 149) * 0x80_0000 + m) as nat).finite(),
        !Single::compose(false, ((q + 149) * 0x80_0000 + m) as nat).negative(),
        Single::compose(false, ((q + 149) * 0x80_0000 + m) as nat).units(t) == m * pow2(
            (q - t) as nat,
        ),
{
    reveal(Single::units);
    let bits = ((q + 149) * 0x80_0000 + m) as nat;
    let r = Single::compose(false, bits);
    assert(r.magnitude() == bits);
    let unit = pow2((q - t) as nat);
    if m < 0x80_0000 {
        assert(r.exponent() == 0);
        assert(r.fraction() == m);
        assert(r.significand() == m && r.quantum() == q);
        assert(r.units(t) == m * unit);
    } else if m < 0x100_0000 {
        assert(bits == (q + 150) * 0x80_0000 + (m - 0x80_0000));
        assert(r.exponent() == q + 150);
        assert(r.fraction() == m - 0x80_0000);
        assert(r.significand() == m && r.quantum() == q);
        assert(r.units(t) == m * unit);
    } else {
        assert(bits == (q + 151) * 0x80_0000);
        assert(r.exponent() == q + 151);
        assert(r.fraction() == 0);
        assert(r.significand() == 0x80_0000 && r.quantum() == q + 1);
        lemma_pow2_unfold((q + 1 - t) as nat);
        assert(pow2((q + 1 - t) as nat) == 2 * unit);
        assert(r.units(t) == 0x80_0000 * pow2((q + 1 - t) as nat));
        assert(0x80_0000 * (2 * unit) == m * unit) by (nonlinear_arith)
            requires
                m == 0x100_0000,
        ;
    }
}

/// Of the multiples of `u`, one that is within half of `u` of `v` is a
/// nearest one.
pub proof fn lemma_nearest_multiple(v: int, u: int, m: int, k: int)
    requires
        u > 0,
        2 * (m * u - v) <= u,
        2 * (v - m * u) <= u,
    ensures
        distance(m * u, v) <= distance(k * u, v),
{
    if k > m {
        assert(k * u >= m * u + u) by (nonlinear_arith)
            requires
                k >= m + 1,
                u > 0,
        ;
    } else if k < m {
        assert(k * u <= m * u - u) by (nonlinear_arith)
            requires
                k <= m - 1,
                u > 0,
        ;
    }
}

/// Where rounding `p * 2^e` gives a finite number, no finite binary32 number
/// is nearer to `p * 2^e` than that one. All three are measured in units of
/// `2^t`, for a `t` small enough that each is a whole number of them.
pub proof fn lemma_rounded_is_nearest(p: nat, e: int, t: int, y: Single)
    requires
        p > 0,
        t <= e,
        t <= -149,
        y.finite(),
        !y.negative(),
        rounded_magnitude(p, e) < INFINITY_BITS,
    ensures
        distance(
            Single::compose(false, rounded_magnitude(p, e)).units(t),
            (p * pow2((e - t) as nat)) as int,
        ) <= distance(y.units(t), (p * pow2((e - t) as nat)) as int),
{
    reveal(rounded_magnitude);
    reveal(Single::units);
    lemma2_to64();
    let q = result_quantum(p, e);
    let m = rounded_significand(p, e);
    let l = floor_log2(p);
    let u = pow2((q - t) as nat);
    let w = pow2((e - t) as nat);
    let v = (p * w) as int;
    lemma_rounded_significand_range(p, e);
    lemma_packed_number_units(q, m, t);
    lemma_pow2_pos((q - t) as nat);
    lemma_pow2_pos((e - t) as nat);
    lemma_floor_log2_bounds(p);
    // The rounded number is within half a quantum of the exact magnitude.
    if e >= q {
        lemma_pow2_adds((e - q) as nat, (q - t) as nat);
        assert((p * pow2((e - q) as nat)) * u == p * (pow2((e - q) as nat) * u))
            by (nonlinear_arith);
        assert(m * u == v);
    } else {
        let d = pow2((q - e) as nat);
        lemma_pow2_pos((q - e) as nat);
        lemma_pow2_adds((q - e) as nat, (e - t) as nat);
        assert(u == d * w);
        lemma_rounded_quotient_is_nearest(p, d);
        let a = m * d - p;
        assert(m * u - v == a * w) by (nonlinear_arith)
            requires
                u == d * w,
                v == p * w,
                a == m * d - p,
        ;
        assert(2 * (a * w) <= d * w) by (nonlinear_arith)
            requires
                2 * a <= d,
                w > 0,
        ;
        assert(2 * (-(a * w)) <= d * w) by (nonlinear_arith)
            requires
                2 * (-a) <= d,
                w > 0,
        ;
    }
    assert(2 * (m * u - v) <= u && 2 * (v - m * u) <= u);
    let my = y.significand();
    let qy = y.quantum();
    let uy = pow2((qy - t) as nat);
    lemma_pow2_pos((qy - t) as nat);
    assert(y.units(t) == my * uy);
    if qy >= q {
        // The other number is a whole number of the result's quanta.
        let f = pow2((qy - q) as nat);
        lemma_pow2_adds((qy - q) as nat, (q - t) as nat);
        assert(my * uy == (my * f) * u) by (nonlinear_arith)
            requires
                uy == f * u,
        ;
        lemma_nearest_multiple(v, u as int, m as int, (my * f) as int);
    } else {
        // The other number lies below `2^23` quanta; the exact magnitude and
        // the rounded number do not.
        lemma_pow2_unfold((q - t) as nat);
        if qy - t < q - 1 - t {
            lemma_pow2_strictly_increases((qy - t) as nat, (q - 1 - t) as nat);
        }
        assert(my * uy < 0x100_0000 * uy) by (nonlinear_arith)
            requires
                my < 0x100_0000,
                uy > 0,
        ;
        assert(my * uy < 0x80_0000 * u);
        lemma_pow2_adds(l, (e - t) as nat);
        lemma_pow2_adds(23, (q - t) as nat);
        assert(p * w >= pow2(l) * w) by (nonlinear_arith)
            requires
                p >= pow2(l),
                w > 0,
        ;
        assert(v >= 0x80_0000 * u);
        lemma_nearest_multiple(v, u as int, m as int, 0x80_0000);
    }
}

} // verus!
