use live2d_mini::scalar as c;
use live2d_mini::scalar::Scalar;

fn s(x: f32) -> Scalar {
    Scalar { bits: x.to_bits() }
}

#[test]
fn order_agrees_with_the_hardware_on_samples() {
    let samples: Vec<f32> = vec![
        0.0,
        -0.0,
        1.0,
        -1.0,
        0.5,
        -0.5,
        f32::MIN_POSITIVE,
        -f32::MIN_POSITIVE,
        1.0e-45,
        -1.0e-45,
        f32::MAX,
        f32::MIN,
        f32::INFINITY,
        f32::NEG_INFINITY,
        f32::NAN,
        -f32::NAN,
        3.5,
        -1234.5,
        f32::EPSILON,
    ];
    for &a in samples.iter() {
        for &b in samples.iter() {
            assert_eq!(s(a).lt(s(b)), a < b);
            assert_eq!(s(a).le(s(b)), a <= b);
            assert_eq!(s(a).gt(s(b)), a > b);
            assert_eq!(s(a).ge(s(b)), a >= b);
            assert_eq!(s(a).eq_value(s(b)), a == b);
        }
        assert_eq!(s(a).abs().bits, a.abs().to_bits());
        assert_eq!(s(a).neg().bits, (-a).to_bits());
        assert_eq!(s(a).is_nan(), a.is_nan());
        assert_eq!(s(a).is_sign_negative(), a.is_sign_negative());
        assert_eq!(s(a).clamp(s(0.0), s(1.0)).bits, a.clamp(0.0, 1.0).to_bits());
    }
}

#[test]
fn the_larger_and_the_smaller_skip_what_is_not_a_number() {
    let samples: Vec<f32> =
        vec![0.0, 1.0, -1.0, 0.5, -2.5, f32::MAX, f32::MIN, f32::INFINITY, f32::NEG_INFINITY];
    for &a in samples.iter() {
        for &b in samples.iter() {
            assert_eq!(s(a).max(s(b)).bits, a.max(b).to_bits());
            assert_eq!(s(a).min(s(b)).bits, a.min(b).to_bits());
        }
        assert_eq!(s(a).max(s(f32::NAN)).bits, a.to_bits());
        assert_eq!(s(f32::NAN).max(s(a)).bits, a.to_bits());
        assert_eq!(s(a).min(s(f32::NAN)).bits, a.to_bits());
        assert_eq!(s(f32::NAN).min(s(a)).bits, a.to_bits());
        assert_eq!(s(a).clamp(s(-1.0), s(1.0)).bits, a.clamp(-1.0, 1.0).to_bits());
    }
    assert!(f32::from_bits(s(f32::NAN).max(s(f32::NAN)).bits).is_nan());
    assert!(f32::from_bits(s(f32::NAN).clamp(s(0.0), s(1.0)).bits).is_nan());
    assert_eq!(Scalar::from_bits(0x3f80_0000).to_bits(), 1.0f32.to_bits());
    assert!(s(-0.0).is_zero() && s(0.0).is_zero() && !s(f32::MIN_POSITIVE).is_zero());
}

#[test]
fn the_constants_are_the_numbers_they_are_named_after() {
    let named: [(u32, f32); 19] = [
        (c::ZERO_BITS, 0.0),
        (c::ONE_BITS, 1.0),
        (c::MINUS_ONE_BITS, -1.0),
        (c::HALF_BITS, 0.5),
        (c::TWO_BITS, 2.0),
        (c::THREE_BITS, 3.0),
        (c::FOUR_BITS, 4.0),
        (c::FIVE_BITS, 5.0),
        (c::SIX_BITS, 6.0),
        (c::NINE_BITS, 9.0),
        (c::TWENTY_SEVEN_BITS, 27.0),
        (c::THIRTY_BITS, 30.0),
        (c::HUNDRED_BITS, 100.0),
        (c::HUNDRED_EIGHTY_BITS, 180.0),
        (c::HUNDREDTH_BITS, 0.01),
        (c::THOUSANDTH_BITS, 0.001),
        (c::EPSILON_BITS, f32::EPSILON),
        (c::PI_BITS, std::f32::consts::PI),
        (c::INFINITY_BITS, f32::INFINITY),
    ];
    for (bits, number) in named {
        assert_eq!(bits, number.to_bits());
    }
    assert_eq!(c::SIGN_BIT, (-0.0f32).to_bits());
}
