use canvas_renderer::single::Single;

fn s(x: f32) -> Single {
    Single::from_bits(x.to_bits())
}

fn same(ours: Single, theirs: f32) -> bool {
    if theirs.is_nan() {
        ours.is_nan()
    } else {
        ours.to_bits() == theirs.to_bits()
    }
}

fn edge_values() -> Vec<f32> {
    let mut v = vec![
        0.0f32,
        -0.0,
        1.0,
        -1.0,
        2.0,
        0.5,
        1.5,
        2.5,
        0.1,
        10.0,
        20.0,
        600.0,
        800.0,
        -800.25,
        16777216.0,
        16777215.0,
        2147483648.0,
        -2147483648.0,
        2147483520.0,
        4294967296.0,
        4294967040.0,
        1e-20,
        1e20,
        -3.0e38,
        f32::MAX,
        f32::MIN,
        f32::MIN_POSITIVE,
        f32::EPSILON,
        f32::INFINITY,
        f32::NEG_INFINITY,
        f32::NAN,
    ];
    for bits in [
        1u32,
        2,
        3,
        0x007f_ffff,
        0x0080_0001,
        0x3f80_0001,
        0x3f7f_ffff,
        0x8000_0001,
        0x807f_ffff,
        0x7f7f_fffe,
        0x7fa0_0000,
        0xffc0_0001,
        0x4b80_0001,
        0x3380_0000,
        0x3300_0000,
        0x3300_0001,
    ] {
        v.push(f32::from_bits(bits));
    }
    v
}

struct Lcg(u64);

impl Lcg {
    fn next(&mut self) -> u32 {
        self.0 = self.0.wrapping_mul(6364136223846793005).wrapping_add(1442695040888963407);
        (self.0 >> 32) as u32
    }

    /// A number whose exponent lies within `spread` of that of `near`.
    fn close_to(&mut self, near: u32, spread: u32) -> u32 {
        let exponent = (near >> 23) & 0xff;
        let shift = self.next() % (2 * spread + 1);
        let moved = (exponent + shift).saturating_sub(spread).min(254);
        (self.next() & 0x807f_ffff) | (moved << 23)
    }
}

#[test]
fn times_agrees_with_hardware_on_edge_values() {
    for &a in &edge_values() {
        for &b in &edge_values() {
            assert!(same(s(a).times(s(b)), a * b), "{:?} * {:?}", a, b);
        }
    }
}

#[test]
fn plus_and_minus_agree_with_hardware_on_edge_values() {
    for &a in &edge_values() {
        for &b in &edge_values() {
            assert!(same(s(a).plus(s(b)), a + b), "{:?} + {:?}", a, b);
            assert!(same(s(a).minus(s(b)), a - b), "{:?} - {:?}", a, b);
        }
    }
}

#[test]
fn times_agrees_with_hardware_on_many_bit_patterns() {
    let mut rng = Lcg(0x1234_5678_9abc_def0);
    for _ in 0..200_000 {
        let a = f32::from_bits(rng.next());
        let b = f32::from_bits(rng.next());
        assert!(same(s(a).times(s(b)), a * b), "{:?} * {:?}", a, b);
    }
}

#[test]
fn times_agrees_with_hardware_near_the_subnormal_range() {
    let mut rng = Lcg(77);
    for _ in 0..200_000 {
        let a = f32::from_bits(rng.close_to(0x1000_0000, 40));
        let b = f32::from_bits(rng.close_to(0x2f00_0000, 40));
        assert!(same(s(a).times(s(b)), a * b), "{:?} * {:?}", a, b);
    }
}

#[test]
fn times_agrees_with_hardware_near_overflow() {
    let mut rng = Lcg(78);
    for _ in 0..200_000 {
        let a = f32::from_bits(rng.close_to(0x5f00_0000, 30));
        let b = f32::from_bits(rng.close_to(0x5f00_0000, 30));
        assert!(same(s(a).times(s(b)), a * b), "{:?} * {:?}", a, b);
    }
}

#[test]
fn minus_agrees_with_hardware_on_many_bit_patterns() {
    let mut rng = Lcg(0x0fed_cba9_8765_4321);
    for _ in 0..200_000 {
        let a = f32::from_bits(rng.next());
        let b = f32::from_bits(rng.next());
        assert!(same(s(a).minus(s(b)), a - b), "{:?} - {:?}", a, b);
        assert!(same(s(a).plus(s(b)), a + b), "{:?} + {:?}", a, b);
    }
}

#[test]
fn minus_agrees_with_hardware_on_close_exponents() {
    let mut rng = Lcg(42);
    for _ in 0..300_000 {
        let a_bits = rng.next();
        let b_bits = rng.close_to(a_bits, 30);
        let a = f32::from_bits(a_bits);
        let b = f32::from_bits(b_bits);
        assert!(same(s(a).minus(s(b)), a - b), "{:?} - {:?}", a, b);
        assert!(same(s(a).plus(s(b)), a + b), "{:?} + {:?}", a, b);
    }
}

#[test]
fn minus_agrees_with_hardware_on_far_exponents() {
    let mut rng = Lcg(43);
    for _ in 0..100_000 {
        let a_bits = rng.close_to(0x5000_0000, 20);
        let b_bits = rng.close_to(0x3000_0000, 40);
        let a = f32::from_bits(a_bits);
        let b = f32::from_bits(b_bits);
        assert!(same(s(a).minus(s(b)), a - b), "{:?} - {:?}", a, b);
        assert!(same(s(b).minus(s(a)), b - a), "{:?} - {:?}", b, a);
    }
}

#[test]
fn minus_cancels_to_positive_zero() {
    assert_eq!(s(5.5).minus(s(5.5)).to_bits(), 0);
    assert_eq!(s(-5.5).minus(s(-5.5)).to_bits(), 0);
    assert_eq!(s(-0.0).minus(s(0.0)).to_bits(), 0x8000_0000);
    assert_eq!(s(0.0).minus(s(-0.0)).to_bits(), 0);
}

#[test]
fn times_rounds_ties_to_even() {
    // (1 + 2^-23) * (1 + 2^-1) lies halfway between two numbers.
    let a = f32::from_bits(0x3f80_0001);
    assert_eq!(s(a).times(s(1.5)).to_bits(), (a * 1.5).to_bits());
    assert_eq!(s(a).times(s(1.5)).to_bits(), 0x3fc0_0002);
    let b = f32::from_bits(0x3f80_0003);
    assert_eq!(s(b).times(s(1.5)).to_bits(), 0x3fc0_0004);
}

#[test]
fn times_gives_exact_small_products() {
    assert_eq!(s(10.0).times(s(2.0)), s(20.0));
    assert_eq!(s(800.0).times(s(1.0)), s(800.0));
    assert_eq!(s(-3.0).times(s(0.5)), s(-1.5));
    assert_eq!(s(0.0).times(s(-2.0)), s(-0.0));
}

#[test]
fn one_and_zero_leave_a_number_as_it_is() {
    let mut rng = Lcg(9);
    for _ in 0..50_000 {
        let bits = rng.next();
        let x = Single::from_bits(bits);
        if x.is_nan() {
            continue;
        }
        assert_eq!(x.times(s(1.0)), x);
        assert_eq!(x.times(s(-1.0)), x.negate());
        if !x.is_zero() {
            assert_eq!(x.minus(s(0.0)), x);
            assert_eq!(x.plus(s(-0.0)), x);
        }
    }
}

#[test]
fn invalid_operations_give_the_quiet_nan() {
    assert_eq!(s(f32::INFINITY).times(s(0.0)).to_bits(), 0x7fc0_0000);
    assert_eq!(s(f32::INFINITY).minus(s(f32::INFINITY)).to_bits(), 0x7fc0_0000);
    assert_eq!(s(f32::NAN).plus(s(1.0)).to_bits(), 0x7fc0_0000);
    assert_eq!(Single::quiet_nan().to_bits(), 0x7fc0_0000);
}

#[test]
fn order_agrees_with_hardware() {
    for &a in &edge_values() {
        for &b in &edge_values() {
            assert_eq!(s(a).is_at_least(s(b)), a >= b, "{:?} >= {:?}", a, b);
            assert_eq!(s(a).is_at_most(s(b)), a <= b, "{:?} <= {:?}", a, b);
            assert_eq!(s(a).is_below(s(b)), a < b, "{:?} < {:?}", a, b);
        }
    }
    let mut rng = Lcg(5);
    for _ in 0..200_000 {
        let a = f32::from_bits(rng.next());
        let b = f32::from_bits(rng.next());
        assert_eq!(s(a).is_at_least(s(b)), a >= b);
        assert_eq!(s(a).is_at_most(s(b)), a <= b);
        assert_eq!(s(a).is_below(s(b)), a < b);
    }
}

#[test]
fn zeros_of_both_signs_are_equal_in_order() {
    assert!(s(0.0).is_at_least(s(-0.0)));
    assert!(s(-0.0).is_at_least(s(0.0)));
    assert!(!s(-0.0).is_below(s(0.0)));
    assert!(s(-0.0).is_at_most(Single::positive_zero()));
}

#[test]
fn truncation_agrees_with_hardware() {
    for &a in &edge_values() {
        assert_eq!(s(a).to_i32(), a as i32, "{:?} as i32", a);
        assert_eq!(s(a).to_u32(), a as u32, "{:?} as u32", a);
    }
    let mut rng = Lcg(6);
    for _ in 0..200_000 {
        let a = f32::from_bits(rng.next());
        assert_eq!(s(a).to_i32(), a as i32, "{:?} as i32", a);
        assert_eq!(s(a).to_u32(), a as u32, "{:?} as u32", a);
        let b = f32::from_bits(rng.close_to(0x4b00_0000, 26));
        assert_eq!(s(b).to_i32(), b as i32, "{:?} as i32", b);
        assert_eq!(s(b).to_u32(), b as u32, "{:?} as u32", b);
    }
}

#[test]
fn truncation_drops_the_fraction_and_clamps() {
    assert_eq!(s(7.9).to_i32(), 7);
    assert_eq!(s(-7.9).to_i32(), -7);
    assert_eq!(s(-7.9).to_u32(), 0);
    assert_eq!(s(3.0e9).to_i32(), i32::MAX);
    assert_eq!(s(-3.0e9).to_i32(), i32::MIN);
    assert_eq!(s(3.0e9).to_u32(), 3_000_000_000);
    assert_eq!(s(5.0e9).to_u32(), u32::MAX);
    assert_eq!(s(f32::NAN).to_i32(), 0);
    assert_eq!(s(f32::NAN).to_u32(), 0);
    assert_eq!(s(f32::INFINITY).to_u32(), u32::MAX);
}

#[test]
fn classification_reads_the_bits() {
    assert!(s(f32::NAN).is_nan());
    assert!(s(f32::INFINITY).is_infinite());
    assert!(s(f32::NEG_INFINITY).is_negative());
    assert!(s(-0.0).is_zero());
    assert!(s(1.0).is_finite());
    assert_eq!(s(1.0).significand_bits(), 0x80_0000);
    assert_eq!(s(1.0).quantum_exponent(), -23);
    assert_eq!(s(f32::from_bits(1)).quantum_exponent(), -149);
    assert_eq!(s(2.5).negate(), s(-2.5));
}
