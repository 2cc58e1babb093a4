use live2d_mini::animation::{evaluate_linear, lerp, AnimationCurveType, AnimationPoint};
use live2d_mini::arith::Op;
use live2d_mini::scalar::Scalar;

fn s(x: f32) -> Scalar {
    Scalar { bits: x.to_bits() }
}

fn f(x: Scalar) -> f32 {
    f32::from_bits(x.bits)
}

fn unit(op: Op, a: Scalar, b: Scalar) -> Scalar {
    let x = f(a);
    let y = f(b);
    s(match op {
        Op::Add => x + y,
        Op::Sub => x - y,
        Op::Mul => x * y,
        Op::Div => x / y,
        Op::Sqrt => x.sqrt(),
        Op::Cbrt => x.cbrt(),
        Op::Pow => x.powf(y),
        Op::Sin => x.sin(),
        Op::Cos => x.cos(),
        Op::Acos => x.acos(),
        Op::Atan2 => x.atan2(y),
    })
}

fn point(time: f32, value: f32) -> AnimationPoint {
    AnimationPoint { time: s(time), value: s(value) }
}

fn as_pair(p: AnimationPoint) -> (f32, f32) {
    (f(p.time), f(p.value))
}

#[test]
fn lerp_points_test() {
    let a = point(0.0, 18.0);
    let b = point(0.210999995, 18.0);

    let t = AnimationCurveType::lerp_points(&unit, &a, &b, s(-0.0));

    assert_eq!(as_pair(t), (0.0, 18.0));

    let a = point(0.210999995, 18.0);
    let b = point(0.421999991, 0.0);

    let t = AnimationCurveType::lerp_points(&unit, &a, &b, s(-0.0));

    assert_eq!(as_pair(t), (0.210999995, 18.0));

    let a = point(0.0, 1.0);
    let b = point(0.333000004, 1.0);

    let t = AnimationCurveType::lerp_points(&unit, &a, &b, s(0.00000154972076));

    assert_eq!(as_pair(t), (5.16057014e-7, 1.0));
}

#[test]
fn a_linear_segment_takes_its_end_values_at_its_end_times() {
    let p0 = point(0.5, 2.0);
    let p1 = point(1.25, -4.0);
    assert_eq!(f(evaluate_linear(&unit, p0, p1, s(0.5))), 2.0);
    assert_eq!(f(evaluate_linear(&unit, p0, p1, s(1.25))), -4.0);
    assert_eq!(f(evaluate_linear(&unit, p0, p1, s(0.8))), -0.40000009536743164);
    assert_eq!(
        f(AnimationCurveType::Linear(p0, p1).evaluate(&unit, s(0.8))),
        -0.40000009536743164
    );
}

#[test]
fn a_linear_segment_is_held_at_its_start_and_left_open_at_its_end() {
    let p0 = point(0.5, 2.0);
    let p1 = point(1.25, -4.0);
    assert_eq!(f(evaluate_linear(&unit, p0, p1, s(0.25))), 2.0);
    assert_eq!(f(evaluate_linear(&unit, p0, p1, s(2.0))), -10.0);
}

#[test]
fn a_linear_segment_runs_in_one_direction() {
    let p0 = point(0.0, -3.0);
    let p1 = point(2.0, 5.0);
    let mut last = f32::NEG_INFINITY;
    for step in 0..=200 {
        let value = f(evaluate_linear(&unit, p0, p1, s(step as f32 * 0.01)));
        assert!(value >= last);
        last = value;
    }
    assert_eq!(last, 5.0);
}

#[test]
fn interpolation_starts_at_the_first_and_ends_at_the_second() {
    for (a, b) in [(0.0f32, 1.0f32), (18.0, 0.0), (-2.5, 7.25), (0.333000004, 0.333000004)] {
        assert_eq!(f(lerp(&unit, s(a), s(b), s(0.0))), a);
        assert_eq!(f(lerp(&unit, s(a), s(b), s(1.0))), b);
        let p = AnimationCurveType::lerp_points(&unit, &point(a, b), &point(b, a), s(0.0));
        assert_eq!(as_pair(p), (a, b));
        let p = AnimationCurveType::lerp_points(&unit, &point(a, b), &point(b, a), s(1.0));
        assert_eq!(as_pair(p), (b, a));
    }
}

#[test]
fn interpolation_rounds_like_its_arithmetic() {
    // the difference of the two ends is rounded before it is added back
    assert_eq!(f(lerp(&unit, s(1.0e8), s(1.0), s(1.0))), 0.0);
    assert_eq!(f(lerp(&unit, s(1.0), s(3.0), s(0.5))), 2.0);
    assert_eq!(f(lerp(&unit, s(1.0), s(3.0), s(-1.0))), -1.0);
    // a difference beyond all numbers, times zero, is not a number
    assert!(f(lerp(&unit, s(-3.0e38), s(3.0e38), s(0.0))).is_nan());
    // a segment without length has no fraction to interpolate at
    assert!(f(evaluate_linear(&unit, point(1.0, 2.0), point(1.0, 5.0), s(1.0))).is_nan());
    assert_eq!(f(evaluate_linear(&unit, point(0.0, 1.0e8), point(1.0, 1.0), s(1.0))), 0.0);
}

#[test]
fn stepped_segments_hold_one_end() {
    let p0 = point(0.0, 1.5);
    let p1 = point(1.0, -2.5);
    for time in [0.0f32, 0.5, 1.0, 7.0] {
        assert_eq!(f(AnimationCurveType::Stepped(p0, p1).evaluate(&unit, s(time))), 1.5);
        assert_eq!(f(AnimationCurveType::InverseStepped(p0, p1).evaluate(&unit, s(time))), -2.5);
    }
}

#[test]
fn a_bezier_segment_with_evenly_spaced_times_is_solved_directly() {
    let straight = AnimationCurveType::Bezier(
        point(0.0, 0.0),
        point(1.0, 3.0),
        point(2.0, 6.0),
        point(3.0, 9.0),
    );
    assert_eq!(f(straight.evaluate(&unit, s(1.5))), 4.5);
    assert_eq!(f(straight.evaluate(&unit, s(0.0))), 0.0);
    assert_eq!(f(straight.evaluate(&unit, s(3.0))), 9.0);

    let eased = AnimationCurveType::Bezier(
        point(0.0, 1.0),
        point(1.0, 1.0),
        point(2.0, 5.0),
        point(3.0, 5.0),
    );
    assert_eq!(f(eased.evaluate(&unit, s(0.75))), 1.625);
}

#[test]
fn the_solver_degrades_to_lower_degrees() {
    let tiny = 1.0e-8f32;
    assert_eq!(
        f(AnimationCurveType::quadration_equation(&unit, s(tiny), s(tiny), s(-0.25))),
        0.25
    );
    assert_eq!(f(AnimationCurveType::quadration_equation(&unit, s(0.0), s(2.0), s(-1.0))), 0.5);
    // t^2 - t = 0 has the roots 0 and 1; the formula takes the lower one
    assert_eq!(f(AnimationCurveType::quadration_equation(&unit, s(1.0), s(-1.0), s(0.0))), -0.0);
    assert_eq!(
        f(AnimationCurveType::cardano_algorithm_for_bezier(&unit, s(0.0), s(0.0), s(3.0), s(-1.5))),
        0.5
    );
    assert_eq!(
        f(AnimationCurveType::cardano_algorithm_for_bezier(&unit, s(0.0), s(0.0), s(3.0), s(-6.0))),
        1.0
    );
    assert_eq!(
        f(AnimationCurveType::cardano_algorithm_for_bezier(&unit, s(0.0), s(0.0), s(3.0), s(6.0))),
        0.0
    );
}

fn timing(p0: f32, c1: f32, c2: f32, p3: f32, time: f32) -> f32 {
    let a = p3 - 3.0 * c2 + 3.0 * c1 - p0;
    let b = 3.0 * c2 - 6.0 * c1 + 3.0 * p0;
    let c = 3.0 * c1 - 3.0 * p0;
    let d = p0 - time;
    f(AnimationCurveType::cardano_algorithm_for_bezier(&unit, s(a), s(b), s(c), s(d)))
}

#[test]
fn the_solver_stays_between_zero_and_one() {
    let shapes = [
        (0.0f32, 0.1f32, 0.9f32, 1.0f32),
        (0.0, 0.42, 0.58, 1.0),
        (0.0, 0.0, 1.0, 1.0),
        (0.0, 0.9, 0.95, 1.0),
        (0.0, 0.05, 0.1, 1.0),
        (2.0, 2.2, 2.3, 2.5),
        (0.0, 0.333, 0.667, 1.0),
    ];
    for (p0, c1, c2, p3) in shapes {
        let mut last = 0.0f32;
        for step in 0..=100 {
            let time = p0 + (p3 - p0) * (step as f32 / 100.0);
            let t = timing(p0, c1, c2, p3, time);
            assert!(t >= 0.0 && t <= 1.0, "{} at {}", t, time);
            assert!(t.is_finite());
            assert!(t + 1.0e-3 >= last, "{} after {} at {}", t, last, time);
            last = t;
        }
    }
}

#[test]
fn the_solver_finds_the_fraction_of_a_curved_timing() {
    // the times 0, 0.1, 0.9 and 1 give x(t) = -1.4 t^3 + 2.1 t^2 + 0.3 t
    for t in [0.0f32, 0.1, 0.25, 0.5, 0.75, 0.9, 1.0] {
        let time = ((-1.4 * t + 2.1) * t + 0.3) * t;
        let solved = timing(0.0, 0.1, 0.9, 1.0, time);
        assert!((solved - t).abs() < 1.0e-3, "{} for {}", solved, t);
    }
}

#[test]
fn the_solver_hands_back_what_is_not_a_number() {
    let t = f(AnimationCurveType::cardano_algorithm_for_bezier(
        &unit,
        s(1.0),
        s(f32::NAN),
        s(0.0),
        s(0.0),
    ));
    assert!(t.is_nan());
}

// The solver written out on the machine's numbers, to hold the library against.

fn quadratic_written_out(a: f32, b: f32, c: f32) -> f32 {
    if a.abs() < f32::EPSILON {
        if b.abs() < f32::EPSILON {
            return -c;
        }
        return -c / b;
    }
    -(b + (b * b - 4.0 * a * c).sqrt()) / (2.0 * a)
}

fn cubic_written_out(a: f32, b: f32, c: f32, d: f32) -> (f32, u8) {
    if a.abs() < f32::EPSILON {
        return (quadratic_written_out(b, c, d).clamp(0.0, 1.0), 0);
    }
    let ba = b / a;
    let ca = c / a;
    let da = d / a;
    let p = (3.0 * ca - ba * ba) / 3.0;
    let p3 = p / 3.0;
    let q = (2.0 * ba * ba * ba - 9.0 * ba * ca + 27.0 * da) / 27.0;
    let q2 = q / 2.0;
    let discriminant = q2 * q2 + p3 * p3 * p3;
    let center = 0.5f32;
    let threshold = center + 0.01;
    if discriminant < 0.0 {
        let mp3 = -p / 3.0;
        let mp33 = mp3 * mp3 * mp3;
        let r = mp33.sqrt();
        let t = -q / (2.0 * r);
        let cosphi = t.clamp(-1.0, 1.0);
        let phi = cosphi.acos();
        let crtr = r.cbrt();
        let t1 = 2.0 * crtr;
        let root1 = t1 * (phi / 3.0).cos() - ba / 3.0;
        if (root1 - center).abs() < threshold {
            return (root1.clamp(0.0, 1.0), 1);
        }
        let root2 = t1 * ((phi + 2.0 * std::f32::consts::PI) / 3.0).cos() - ba / 3.0;
        if (root2 - center).abs() < threshold {
            return (root2.clamp(0.0, 1.0), 2);
        }
        let root3 = t1 * ((phi + 4.0 * std::f32::consts::PI) / 3.0).cos() - ba / 3.0;
        return (root3.clamp(0.0, 1.0), 3);
    }
    if discriminant == 0.0 {
        let u1 = if q2 < 0.0 { (-q2).cbrt() } else { -(q2.cbrt()) };
        let root1 = 2.0 * u1 - ba / 3.0;
        if (root1 - center).abs() < threshold {
            return (root1.clamp(0.0, 1.0), 4);
        }
        let root2 = -u1 - ba / 3.0;
        if (root2 - center).abs() < threshold {
            return (root2.clamp(0.0, 1.0), 5);
        }
    }
    let sd = discriminant.sqrt();
    let u1 = (sd - q2).cbrt();
    let v1 = (sd + q2).cbrt();
    ((u1 - v1 - ba / 3.0).clamp(0.0, 1.0), 6)
}

fn same_number(a: f32, b: f32) -> bool {
    a.to_bits() == b.to_bits() || (a.is_nan() && b.is_nan())
}

#[test]
fn the_solver_agrees_with_its_arithmetic_written_out() {
    let mut seed: u32 = 0x1234_5679;
    let mut next = move || {
        seed ^= seed << 13;
        seed ^= seed >> 17;
        seed ^= seed << 5;
        seed
    };
    let mut seen = [0usize; 7];
    for round in 0..40_000 {
        let mut number = |wide: bool| {
            let unit_range = (next() % 20_001) as f32 / 10_000.0 - 1.0;
            if wide {
                unit_range * 4.0
            } else {
                unit_range
            }
        };
        let (a, b, c, d) = match round % 5 {
            0 => (number(true), number(true), number(true), number(true)),
            1 => (0.0, number(true), number(true), number(false)),
            2 => (0.0, 0.0, number(true), number(false)),
            // a triple root and a double root, where the discriminant is zero
            3 => (1.0, 0.0, 0.0, 0.0),
            _ => (1.0, -1.5, 0.0, 0.5),
        };
        let (expected, branch) = cubic_written_out(a, b, c, d);
        seen[branch as usize] += 1;
        let got = f(AnimationCurveType::cardano_algorithm_for_bezier(&unit, s(a), s(b), s(c), s(d)));
        assert!(same_number(got, expected), "{} {} {} {}: {} is not {}", a, b, c, d, got, expected);
        let got = f(AnimationCurveType::quadration_equation(&unit, s(a), s(b), s(c)));
        assert!(same_number(got, quadratic_written_out(a, b, c)));
    }
    for branch in [0usize, 1, 2, 3, 4, 6] {
        assert!(seen[branch] > 0, "branch {} was never taken", branch);
    }
}

#[test]
fn a_bezier_segment_agrees_with_its_arithmetic_written_out() {
    let points = [(0.0f32, 1.0f32), (0.15, 1.0), (0.6, -2.0), (1.0, -2.0)];
    let segment = AnimationCurveType::Bezier(
        point(points[0].0, points[0].1),
        point(points[1].0, points[1].1),
        point(points[2].0, points[2].1),
        point(points[3].0, points[3].1),
    );
    let mix = |a: (f32, f32), b: (f32, f32), t: f32| {
        (a.0 + ((b.0 - a.0) * t), a.1 + ((b.1 - a.1) * t))
    };
    for step in 0..=200 {
        let time = step as f32 / 200.0;
        let a = points[3].0 - 3.0 * points[2].0 + 3.0 * points[1].0 - points[0].0;
        let b = 3.0 * points[2].0 - 6.0 * points[1].0 + 3.0 * points[0].0;
        let c = 3.0 * points[1].0 - 3.0 * points[0].0;
        let d = points[0].0 - time;
        let t = cubic_written_out(a, b, c, d).0;
        let p01 = mix(points[0], points[1], t);
        let p12 = mix(points[1], points[2], t);
        let p23 = mix(points[2], points[3], t);
        let p012 = mix(p01, p12, t);
        let p123 = mix(p12, p23, t);
        let expected = mix(p012, p123, t).1;
        let got = f(segment.evaluate(&unit, s(time)));
        assert!(same_number(got, expected), "at {}: {} is not {}", time, got, expected);
        assert!(got <= 1.0 && got >= -2.0);
    }
}

#[test]
fn a_linear_segment_stays_between_its_ends() {
    let segments = [
        (point(0.0, -3.0), point(2.0, 5.0)),
        (point(0.5, 2.0), point(1.25, -4.0)),
        (point(-1.0, 0.1), point(3.0, 0.3)),
        (point(0.0, 7.0), point(1.0, 7.0)),
    ];
    for (p0, p1) in segments {
        let (low, high) = (f(p0.value).min(f(p1.value)), f(p0.value).max(f(p1.value)));
        let rising = f(p0.value) <= f(p1.value);
        let mut last = f(p0.value);
        for step in 0..=400 {
            let time = f(p0.time) + (f(p1.time) - f(p0.time)) * (step as f32 / 400.0);
            let value = f(AnimationCurveType::Linear(p0, p1).evaluate(&unit, s(time)));
            assert!(value >= low && value <= high, "{} at {}", value, time);
            assert!(if rising { value >= last } else { value <= last });
            last = value;
        }
        assert_eq!(last, f(p1.value));
    }
}

#[test]
fn a_timing_that_is_all_but_linear_is_solved_to_a_fraction() {
    for (c, d) in [(3.0f32, -1.5f32), (3.0, 1.0), (3.0, -7.0), (-2.0, 0.5), (1.0e-9, -0.25), (0.0, 0.0)] {
        for (a, b) in [(0.0f32, 0.0f32), (1.0e-8, -1.0e-8), (-0.0, 1.0e-7)] {
            let t =
                f(AnimationCurveType::cardano_algorithm_for_bezier(&unit, s(a), s(b), s(c), s(d)));
            let expected = if c.abs() < f32::EPSILON { -d } else { -d / c }.clamp(0.0, 1.0);
            assert_eq!(t, expected);
            assert!(t >= 0.0 && t <= 1.0);
        }
    }
}
