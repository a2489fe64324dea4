use math::bits::{
    abs64, classify32, classify64, compose64, decompose32, decompose64, widen32, FloatClass,
};

#[test]
fn classify64_each_class() {
    assert_eq!(classify64(f64::NAN.to_bits()), FloatClass::Nan);
    assert_eq!(classify64(f64::INFINITY.to_bits()), FloatClass::PositiveInfinity);
    assert_eq!(classify64(f64::NEG_INFINITY.to_bits()), FloatClass::NegativeInfinity);
    assert_eq!(classify64(0.0f64.to_bits()), FloatClass::PositiveZero);
    assert_eq!(classify64((-0.0f64).to_bits()), FloatClass::NegativeZero);
    assert_eq!(classify64(5e-324f64.to_bits()), FloatClass::Subnormal);
    assert_eq!(classify64(1.5f64.to_bits()), FloatClass::Normal);
    assert_eq!(classify64(f64::MIN_POSITIVE.to_bits()), FloatClass::Normal);
}

#[test]
fn classify32_each_class() {
    assert_eq!(classify32(f32::NAN.to_bits()), FloatClass::Nan);
    assert_eq!(classify32(f32::INFINITY.to_bits()), FloatClass::PositiveInfinity);
    assert_eq!(classify32(f32::NEG_INFINITY.to_bits()), FloatClass::NegativeInfinity);
    assert_eq!(classify32(0.0f32.to_bits()), FloatClass::PositiveZero);
    assert_eq!(classify32((-0.0f32).to_bits()), FloatClass::NegativeZero);
    assert_eq!(classify32(1u32), FloatClass::Subnormal);
    assert_eq!(classify32((-3.25f32).to_bits()), FloatClass::Normal);
}

#[test]
fn decompose64_fields() {
    assert_eq!(decompose64(1.0f64.to_bits()), (0, 1023, 0));
    assert_eq!(decompose64((-2.5f64).to_bits()), (1, 1024, 0x4_0000_0000_0000));
    assert_eq!(decompose64(f64::NAN.to_bits()), (0, 2047, 0x8_0000_0000_0000));
}

#[test]
fn decompose32_fields() {
    assert_eq!(decompose32(1.0f32.to_bits()), (0, 127, 0));
    assert_eq!(decompose32((-2.5f32).to_bits()), (1, 128, 0x20_0000));
}

#[test]
fn compose64_round_trip() {
    for x in [0.0f64, -0.0, 1.0, -2.5, 5e-324, f64::MAX, f64::INFINITY, f64::NAN] {
        let (s, e, f) = decompose64(x.to_bits());
        assert_eq!(compose64(s, e, f), x.to_bits());
    }
    assert_eq!(compose64(1, 1023, 0), (-1.0f64).to_bits());
}

#[test]
fn abs64_clears_sign() {
    assert_eq!(abs64((-2.5f64).to_bits()), 2.5f64.to_bits());
    assert_eq!(abs64((-0.0f64).to_bits()), 0);
    assert_eq!(abs64(3.0f64.to_bits()), 3.0f64.to_bits());
}

#[test]
fn widen32_matches_conversion() {
    let values = [
        0.0f32, -0.0, 1.0, -1.0, 0.1, -3.75, f32::MAX, f32::MIN_POSITIVE, f32::from_bits(1),
        f32::from_bits(0x8000_0001), f32::from_bits(0x007f_ffff), f32::from_bits(0x0040_0000),
        f32::INFINITY, f32::NEG_INFINITY,
    ];
    for x in values {
        assert_eq!(widen32(x.to_bits()), (x as f64).to_bits(), "x bits = {:#x}", x.to_bits());
    }
}

#[test]
fn widen32_keeps_nan() {
    let w = widen32(f32::NAN.to_bits());
    assert!(f64::from_bits(w).is_nan());
    assert_eq!(w, 0x7ff8_0000_0000_0000);
    assert_eq!(widen32(0x7f80_0001), 0x7ff0_0000_2000_0000);
}
