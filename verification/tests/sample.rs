use optimization_engine::sample::{clamp_unit, INFINITY_BITS, MINUS_ONE_BITS, ONE_BITS, SIGN_BIT};

#[test]
fn constants_are_the_patterns_they_name() {
    assert_eq!(ONE_BITS, 1.0f64.to_bits());
    assert_eq!(MINUS_ONE_BITS, (-1.0f64).to_bits());
    assert_eq!(INFINITY_BITS, f64::INFINITY.to_bits());
    assert_eq!(SIGN_BIT, (-0.0f64).to_bits());
}

#[test]
fn clamp_keeps_values_inside_the_interval() {
    for value in [0.0f64, -0.0, 0.5, -0.5, 1.0, -1.0, 1e-310, -1e-310, 0.9999999999999999] {
        assert_eq!(clamp_unit(value.to_bits()), value.to_bits());
    }
}

#[test]
fn clamp_clips_values_outside_the_interval() {
    assert_eq!(clamp_unit(1.0000000000000002f64.to_bits()), ONE_BITS);
    assert_eq!(clamp_unit((-1.0000000000000002f64).to_bits()), MINUS_ONE_BITS);
    assert_eq!(clamp_unit(2.5f64.to_bits()), ONE_BITS);
    assert_eq!(clamp_unit((-2.5f64).to_bits()), MINUS_ONE_BITS);
    assert_eq!(clamp_unit(f64::MAX.to_bits()), ONE_BITS);
    assert_eq!(clamp_unit(f64::MIN.to_bits()), MINUS_ONE_BITS);
}

#[test]
fn clamp_saturates_infinities() {
    assert_eq!(clamp_unit(f64::INFINITY.to_bits()), ONE_BITS);
    assert_eq!(clamp_unit(f64::NEG_INFINITY.to_bits()), MINUS_ONE_BITS);
}

#[test]
fn clamp_propagates_nan() {
    let quiet = f64::NAN.to_bits();
    assert_eq!(clamp_unit(quiet), quiet);
    assert_eq!(clamp_unit(quiet | SIGN_BIT), quiet | SIGN_BIT);
    assert_eq!(clamp_unit(0x7FF0_0000_0000_0001), 0x7FF0_0000_0000_0001);
    assert_eq!(clamp_unit(0xFFFF_FFFF_FFFF_FFFF), 0xFFFF_FFFF_FFFF_FFFF);
    assert!(f64::from_bits(clamp_unit(quiet)).is_nan());
}

#[test]
fn clamp_agrees_with_float_clamp() {
    let mut pattern: u64 = 0x0123_4567_89AB_CDEF;
    for _ in 0..20_000 {
        pattern = pattern.wrapping_mul(6364136223846793005).wrapping_add(1442695040888963407);
        let value = f64::from_bits(pattern);
        let clamped = f64::from_bits(clamp_unit(pattern));
        if value.is_nan() {
            assert_eq!(clamp_unit(pattern), pattern);
        } else {
            assert_eq!(clamped.to_bits(), value.clamp(-1.0, 1.0).to_bits());
            assert_eq!(clamped, value.min(1.0).max(-1.0));
        }
    }
}
