use live2d_mini::arith::{apply, minus, over, plus, times, to_radians, Op};
use live2d_mini::physic::particles::to_direction;
use live2d_mini::scalar::Scalar;

fn s(x: f32) -> Scalar {
    Scalar { bits: x.to_bits() }
}

fn f(x: Scalar) -> f32 {
    f32::from_bits(x.bits)
}

fn unit(op: Op, a: Scalar, b: Scalar) -> Scalar {
    let x = f(a);
    let y = f(b);
    s(match op {
        Op::Add => x + y,
        Op::Sub => x - y,
        Op::Mul => x * y,
        Op::Div => x / y,
        Op::Sqrt => x.sqrt(),
        Op::Cbrt => x.cbrt(),
        Op::Pow => x.powf(y),
        Op::Sin => x.sin(),
        Op::Cos => x.cos(),
        Op::Acos => x.acos(),
        Op::Atan2 => x.atan2(y),
    })
}

fn samples() -> Vec<Scalar> {
    let mut numbers: Vec<f32> = vec![
        0.0,
        -0.0,
        1.0,
        -1.0,
        0.5,
        1.5,
        -2.75,
        3.0,
        0.1,
        -0.3,
        100.0,
        1.0e-3,
        1.0e8,
        -1.0e8,
        3.0e38,
        -3.0e38,
        f32::MIN_POSITIVE,
        1.0e-45,
        -1.0e-45,
        f32::MAX,
        f32::MIN,
        f32::EPSILON,
        f32::INFINITY,
        f32::NEG_INFINITY,
        f32::NAN,
    ];
    let mut seed: u32 = 0x2545_f491;
    for _ in 0..40 {
        seed ^= seed << 13;
        seed ^= seed >> 17;
        seed ^= seed << 5;
        numbers.push(f32::from_bits(seed));
    }
    numbers.into_iter().map(s).collect()
}

#[test]
fn the_operations_reach_the_unit() {
    assert_eq!(f(plus(&unit, s(1.5), s(2.25))), 3.75);
    assert_eq!(f(minus(&unit, s(1.5), s(2.25))), -0.75);
    assert_eq!(f(times(&unit, s(1.5), s(2.25))), 3.375);
    assert_eq!(f(over(&unit, s(1.5), s(0.25))), 6.0);
    assert_eq!(f(apply(&unit, Op::Sqrt, s(6.25), s(0.0))), 2.5);
    assert_eq!(f(live2d_mini::arith::sqrt(&unit, s(6.25))), 2.5);
    assert_eq!(f(live2d_mini::arith::cbrt(&unit, s(-27.0))), -3.0);
    assert_eq!(f(live2d_mini::arith::powf(&unit, s(6.25), s(0.5))), 2.5);
    assert_eq!(f(live2d_mini::arith::sin(&unit, s(0.0))), 0.0);
    assert_eq!(f(live2d_mini::arith::cos(&unit, s(0.0))), 1.0);
    assert_eq!(f(live2d_mini::arith::acos(&unit, s(1.0))), 0.0);
    assert_eq!(f(live2d_mini::arith::atan2(&unit, s(1.0), s(0.0))), std::f32::consts::FRAC_PI_2);
}

#[test]
fn degrees_become_radians_by_their_hundred_and_eightieth_part() {
    assert_eq!(f(to_radians(&unit, s(180.0))), std::f32::consts::PI);
    assert_eq!(f(to_radians(&unit, s(-10.0))), (-10.0f32 / 180.0) * std::f32::consts::PI);
    assert_eq!(to_radians(&unit, s(-10.0)).bits, 0xbe32_b8c3);
    assert_eq!(f(to_radians(&unit, s(0.0))), 0.0);
}

#[test]
fn the_machine_is_exact_at_zero_and_one() {
    let zeros = [s(0.0), s(-0.0)];
    let one = s(1.0);
    for &x in samples().iter() {
        for &z in zeros.iter() {
            if x.is_finite() {
                assert!(times(&unit, x, z).is_zero());
            }
            if !x.is_nan() {
                assert!(plus(&unit, x, z).eq_value(x));
            }
            if !x.is_nan() && !x.is_zero() {
                assert!(over(&unit, z, x).is_zero());
            }
        }
        if x.is_finite() {
            assert!(minus(&unit, x, x).is_zero());
        }
        if !x.is_nan() {
            assert_eq!(times(&unit, x, one), x);
        }
        if x.is_finite() && !x.is_zero() {
            assert_eq!(over(&unit, x, x), one);
        }
    }
}

#[test]
fn the_machine_keeps_the_order_of_its_operands() {
    let numbers = samples();
    let zero = s(0.0);
    for &a in numbers.iter() {
        for &b in numbers.iter() {
            if !a.le(b) {
                continue;
            }
            for &c in numbers.iter() {
                let (low, high) = (plus(&unit, c, a), plus(&unit, c, b));
                if !low.is_nan() && !high.is_nan() {
                    assert!(low.le(high));
                }
                let (low, high) = (minus(&unit, a, c), minus(&unit, b, c));
                if !low.is_nan() && !high.is_nan() {
                    assert!(low.le(high));
                }
                let (low, high) = (over(&unit, a, c), over(&unit, b, c));
                if zero.lt(c) && !low.is_nan() && !high.is_nan() {
                    assert!(low.le(high));
                }
                let (first, second) = (times(&unit, c, a), times(&unit, c, b));
                if !first.is_nan() && !second.is_nan() {
                    if zero.le(c) {
                        assert!(first.le(second));
                    }
                    if c.le(zero) {
                        assert!(second.le(first));
                    }
                }
            }
        }
    }
}

#[test]
fn the_division_comes_before_the_product_with_the_circle_constant() {
    // the product with the rounded quotient of the two constants is the other formula
    assert_eq!((-10.0f32).to_radians().to_bits(), 0xbe32_b8c2);
    assert_eq!(to_radians(&unit, s(-10.0)).bits, 0xbe32_b8c3);
    assert_eq!(1.0f32.to_radians().to_bits(), 0x3c8e_fa35);
    assert_eq!(to_radians(&unit, s(1.0)).bits, 0x3c8e_fa36);

    // the direction of gravity for a chain that is turned by minus ten degrees
    let expected = (-0.173648208f32, 0.984807789f32);
    let direction = to_direction(&unit, to_radians(&unit, s(-10.0))).normalize(&unit);
    assert_eq!((f(direction.x), f(direction.y)), expected);
    let other = to_direction(&unit, s((-10.0f32).to_radians())).normalize(&unit);
    assert_ne!((f(other.x), f(other.y)), expected);
}

#[test]
fn the_machine_divides_numbers_into_numbers() {
    let numbers = samples();
    for &x in numbers.iter() {
        for &d in numbers.iter() {
            if !x.is_nan() && d.is_finite() && !d.is_zero() {
                assert!(!over(&unit, x, d).is_nan());
            }
        }
    }
}
