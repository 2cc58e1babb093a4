use live2d_mini::arith::Op;
use live2d_mini::physic::evaluate::rotated;
use live2d_mini::physic::normalize::normalize_parameter_value;
use live2d_mini::physic::output::update_output_parameter_value;
use live2d_mini::physic::particles::{update_particles, update_particles2};
use live2d_mini::physic::types::{
    CubismPhysicsOutput, CubismPhysicsParameter, CubismPhysicsParticle, CubismPhysicsSource,
    CubismPhysicsTargetType, GetOutputScaleTranslationType, GetOutputTranslation,
};
use live2d_mini::physic::vector::CubismVector2;
use live2d_mini::scalar::Scalar;

fn s(x: f32) -> Scalar {
    Scalar { bits: x.to_bits() }
}

fn f(x: Scalar) -> f32 {
    f32::from_bits(x.bits)
}

fn unit(op: Op, a: Scalar, b: Scalar) -> Scalar {
    let x = f(a);
    let y = f(b);
    s(match op {
        Op::Add => x + y,
        Op::Sub => x - y,
        Op::Mul => x * y,
        Op::Div => x / y,
        Op::Sqrt => x.sqrt(),
        Op::Cbrt => x.cbrt(),
        Op::Pow => x.powf(y),
        Op::Sin => x.sin(),
        Op::Cos => x.cos(),
        Op::Acos => x.acos(),
        Op::Atan2 => x.atan2(y),
    })
}

fn v(x: f32, y: f32) -> CubismVector2 {
    CubismVector2 { x: s(x), y: s(y) }
}

fn pair(p: CubismVector2) -> (f32, f32) {
    (f(p.x), f(p.y))
}

fn angle_output(index: usize, vertex_index: usize, angle_scale: f32) -> CubismPhysicsOutput {
    CubismPhysicsOutput {
        destination: CubismPhysicsParameter {
            id: "ParamHairFront".to_string(),
            target_type: CubismPhysicsTargetType::CubismPhysicsTargetTypeParameter,
        },
        destination_parameter_index: Some(index),
        vertex_index,
        translation_scale: v(0.0, 0.0),
        angle_scale: s(angle_scale),
        weight: s(100.0),
        output_type: CubismPhysicsSource::CubismPhysicsSourceAngle,
        reflect: false,
        value_below_minimum: s(0.0),
        value_exceeded_maximum: s(0.0),
        get_value: GetOutputTranslation::Angle,
        get_scale: GetOutputScaleTranslationType::Angle,
    }
}

#[test]
fn test_update_output_parameter_value() {
    let mut parameter_value = s(-1.0);

    let mut physic_output = angle_output(36, 1, 1.52199996);

    update_output_parameter_value(
        &unit,
        &mut parameter_value,
        s(-1.0),
        s(1.0),
        s(0.0),
        &mut physic_output,
    );

    assert_eq!(f(parameter_value), 0.0);
    assert_eq!(f(physic_output.value_below_minimum), 0.0);
    assert_eq!(f(physic_output.value_exceeded_maximum), 0.0);

    let mut physic_output = angle_output(50, 2, 20.0);

    update_output_parameter_value(
        &unit,
        &mut parameter_value,
        s(-45.0),
        s(45.0),
        s(0.213295937),
        &mut physic_output,
    );

    assert_eq!(f(parameter_value), 4.26591873);
    assert_eq!(f(physic_output.value_below_minimum), 0.0);
    assert_eq!(f(physic_output.value_exceeded_maximum), 0.0);
}

fn normalized(value: f32, minimum: f32, maximum: f32) -> f32 {
    f(normalize_parameter_value(
        &unit,
        s(value),
        s(minimum),
        s(maximum),
        s(0.0),
        s(-10.0),
        s(10.0),
        s(0.0),
        false,
    ))
}

#[test]
fn test_normalize_parameter_value() {
    assert_eq!(normalized(1.31227696, -30.0, 30.0) * 0.600000024, -0.262455404);

    assert_eq!(normalized(-3.26054907, -30.0, 30.0) * 0.600000024, 0.652109861);

    assert_eq!(normalized(-1.99831104, -10.0, 10.0) * 0.400000006, 0.79932445);

    assert_eq!(normalized(10000.0, -30.0, 30.0) * 0.600000024, -6.0);
}

fn first_particle() -> CubismPhysicsParticle {
    CubismPhysicsParticle {
        initial_position: v(0.0, 0.0),
        mobility: s(1.0),
        delay: s(1.0),
        acceleration: s(1.0),
        radius: s(0.0),
        position: v(-9.84807777, -1.71010089),
        last_position: v(0.0, 0.0),
        last_gravity: v(0.0, 1.0),
        force: v(0.0, 0.0),
        velocity: v(0.0, 0.0),
    }
}

fn second_particle() -> CubismPhysicsParticle {
    CubismPhysicsParticle {
        initial_position: v(0.0, 3.0),
        mobility: s(0.949999988),
        delay: s(0.899999976),
        acceleration: s(1.5),
        radius: s(3.0),
        position: v(-7.20117282, -0.298047066),
        last_position: v(0.0, 3.0),
        last_gravity: v(-0.173648208, 0.984807789),
        force: v(0.0, 0.0),
        velocity: v(-25.3374615, -11.6042404),
    }
}

fn assert_particle(
    got: &CubismPhysicsParticle,
    initial_position: (f32, f32),
    scalars: (f32, f32, f32, f32),
    position: (f32, f32),
    last_position: (f32, f32),
    last_gravity: (f32, f32),
    force: (f32, f32),
    velocity: (f32, f32),
) {
    assert_eq!(pair(got.initial_position), initial_position);
    assert_eq!(
        (f(got.mobility), f(got.delay), f(got.acceleration), f(got.radius)),
        scalars
    );
    assert_eq!(pair(got.position), position);
    assert_eq!(pair(got.last_position), last_position);
    assert_eq!(pair(got.last_gravity), last_gravity);
    assert_eq!(pair(got.force), force);
    assert_eq!(pair(got.velocity), velocity);
}

fn assert_first_unmoved(got: &CubismPhysicsParticle) {
    assert_particle(
        got,
        (0.0, 0.0),
        (1.0, 1.0, 1.0, 0.0),
        (-9.84807777, -1.71010089),
        (0.0, 0.0),
        (0.0, 1.0),
        (0.0, 0.0),
        (0.0, 0.0),
    );
}

fn assert_second_stepped(got: &CubismPhysicsParticle) {
    assert_particle(
        got,
        (0.0, 3.0),
        (0.949999988, 0.899999976, 1.5, 3.0),
        (-12.649684, -2.78294802),
        (-7.20117282, -0.298047066),
        (-0.173648208, 0.984807789),
        (0.0, 0.0),
        (-19.1706886, -8.74317073),
    );
}

#[test]
fn test_update_particles() {
    let mut strand = vec![first_particle(), second_particle()];

    update_particles(
        &unit,
        &mut strand,
        0,
        2,
        v(-9.84807777, -1.71010089),
        s(-10.0),
        v(0.0, 0.0),
        s(0.0100000007),
        s(0.00999999977),
        s(5.0),
    );

    assert_first_unmoved(&strand[0]);
    assert_second_stepped(&strand[1]);
}

#[test]
fn test_update_particles2() {
    let strand = vec![first_particle(), second_particle()];

    let stepped = update_particles2(
        &unit,
        &strand,
        2,
        v(-9.84807777, -1.71010089),
        s(-10.0),
        v(0.0, 0.0),
        s(0.0100000007),
        s(0.00999999977),
        s(5.0),
    );

    assert_first_unmoved(&stepped[0]);
    assert_second_stepped(&stepped[1]);
}

fn angle_written_out(from: (f32, f32), to: (f32, f32)) -> f32 {
    let q1 = to.1.atan2(to.0);
    let q2 = from.1.atan2(from.0);
    let mut ret = q1 - q2;
    while ret < -std::f32::consts::PI {
        ret += std::f32::consts::PI * 2.0;
    }
    while ret > std::f32::consts::PI {
        ret -= std::f32::consts::PI * 2.0;
    }
    ret
}

#[test]
fn the_angle_between_two_directions_is_brought_into_half_a_turn() {
    let directions = [
        (1.0f32, 0.0f32),
        (0.0, 1.0),
        (-1.0, 0.001),
        (-1.0, -0.001),
        (0.0, -1.0),
        (0.7, -0.7),
        (-0.3, 0.9),
        (-5.0, -0.5),
        (0.0, 0.0),
    ];
    let mut wrapped_down = false;
    let mut wrapped_up = false;
    for from in directions {
        for to in directions {
            let got = f(v(from.0, from.1).to_radian(&unit, &v(to.0, to.1)));
            let expected = angle_written_out(from, to);
            assert_eq!(got.to_bits(), expected.to_bits(), "{:?} to {:?}", from, to);
            assert!(got.abs() <= std::f32::consts::PI);
            let plain = to.1.atan2(to.0) - from.1.atan2(from.0);
            wrapped_down = wrapped_down || plain > std::f32::consts::PI;
            wrapped_up = wrapped_up || plain < -std::f32::consts::PI;
        }
    }
    assert!(wrapped_down && wrapped_up);
    assert_eq!(f(v(0.0, 1.0).to_radian(&unit, &v(1.0, 0.0))), -std::f32::consts::FRAC_PI_2);
}

#[test]
fn a_turn_that_does_not_help_is_the_last() {
    // an arithmetic in which every sum and difference is one and the same number
    let stuck = |op: Op, a: Scalar, b: Scalar| match op {
        Op::Atan2 => s(0.0),
        Op::Sub => s(10.0),
        Op::Add => s(-10.0),
        _ => unit(op, a, b),
    };
    assert_eq!(f(v(1.0, 0.0).to_radian(&stuck, &v(0.0, 1.0))), 10.0);
}

#[test]
fn vectors_are_added_and_scaled_component_by_component() {
    let a = v(1.5, -2.0);
    let b = v(0.25, 4.0);
    assert_eq!(pair(a.add(&unit, b)), (1.75, 2.0));
    assert_eq!(pair(a.sub(&unit, b)), (1.25, -6.0));
    assert_eq!(pair(a.mul(&unit, s(-2.0))), (-3.0, 4.0));
    assert_eq!(pair(a.div(&unit, s(0.5))), (3.0, -4.0));
    assert_eq!(pair(v(3.0, 4.0).normalize(&unit)), (0.6, 0.8));
    assert_eq!(pair(CubismVector2::default()), (0.0, 0.0));
    let nowhere = v(0.0, 0.0).normalize(&unit);
    assert!(f(nowhere.x).is_nan() && f(nowhere.y).is_nan());
}

#[test]
fn an_output_takes_its_value_from_the_step_between_two_particles() {
    let mut strand = vec![first_particle(), second_particle(), second_particle()];
    strand[0].position = v(0.0, 0.0);
    strand[1].position = v(0.0, 3.0);
    strand[2].position = v(3.0, 3.0);
    let step = v(3.0, 0.0);
    let up = v(0.0, -1.0);

    let x = GetOutputTranslation::X;
    assert_eq!(f(x.get_value(&unit, step, &strand, 0, 2, false, up)), 3.0);
    assert_eq!(f(x.get_value(&unit, step, &strand, 0, 2, true, up)), -3.0);
    let y = GetOutputTranslation::Y;
    assert_eq!(f(y.get_value(&unit, v(3.0, 0.5), &strand, 0, 2, false, up)), 0.5);
    assert_eq!(f(y.get_value(&unit, v(3.0, 0.5), &strand, 0, 2, true, up)), -0.5);

    // from the step above, straight down, to a step to the right is a quarter turn back
    let angle = GetOutputTranslation::Angle;
    assert_eq!(
        f(angle.get_value(&unit, step, &strand, 0, 2, false, up)),
        -std::f32::consts::FRAC_PI_2
    );
    assert_eq!(
        f(angle.get_value(&unit, step, &strand, 0, 2, true, up)),
        std::f32::consts::FRAC_PI_2
    );
    // the first step of a chain is measured against the reverse of the direction handed in
    assert_eq!(
        f(angle.get_value(&unit, v(0.0, 3.0), &strand, 0, 1, false, up)),
        angle_written_out((-0.0, 1.0), (0.0, 3.0))
    );
    // a chain that starts further down the list
    assert_eq!(
        f(angle.get_value(&unit, step, &strand, 1, 1, false, v(-1.0, 0.0))),
        angle_written_out((1.0, -0.0), (3.0, 0.0))
    );

    assert_eq!(
        f(GetOutputScaleTranslationType::X.get_output_scale_translation(v(2.0, 3.0), s(4.0))),
        2.0
    );
    assert_eq!(
        f(GetOutputScaleTranslationType::Y.get_output_scale_translation(v(2.0, 3.0), s(4.0))),
        3.0
    );
    assert_eq!(
        f(GetOutputScaleTranslationType::Angle.get_output_scale_translation(v(2.0, 3.0), s(4.0))),
        4.0
    );
}

#[test]
fn an_output_records_how_far_its_value_lay_outside_the_range() {
    let mut parameter_value = s(0.25);
    let mut output = angle_output(3, 1, 10.0);

    update_output_parameter_value(&unit, &mut parameter_value, s(-1.0), s(1.0), s(0.5), &mut output);
    assert_eq!(f(parameter_value), 1.0);
    assert_eq!((f(output.value_below_minimum), f(output.value_exceeded_maximum)), (0.0, 5.0));

    update_output_parameter_value(&unit, &mut parameter_value, s(-1.0), s(1.0), s(0.3), &mut output);
    assert_eq!(f(parameter_value), 1.0);
    assert_eq!((f(output.value_below_minimum), f(output.value_exceeded_maximum)), (0.0, 5.0));

    update_output_parameter_value(&unit, &mut parameter_value, s(-1.0), s(1.0), s(-0.7), &mut output);
    assert_eq!(f(parameter_value), -1.0);
    assert_eq!((f(output.value_below_minimum), f(output.value_exceeded_maximum)), (-7.0, 5.0));

    update_output_parameter_value(&unit, &mut parameter_value, s(-1.0), s(1.0), s(0.05), &mut output);
    assert_eq!(f(parameter_value), 0.5);
    assert_eq!((f(output.value_below_minimum), f(output.value_exceeded_maximum)), (-7.0, 5.0));
}

#[test]
fn a_weight_below_a_hundred_adds_the_weight_to_the_value() {
    let mut parameter_value = s(0.5);
    let mut output = angle_output(3, 1, 2.0);
    output.weight = s(25.0);

    update_output_parameter_value(&unit, &mut parameter_value, s(-1.0), s(1.0), s(0.125), &mut output);

    // a quarter of the weight: 0.5 * (1 - 0.25) + (0.25 + 0.25)
    assert_eq!(f(parameter_value), 0.875);
}

#[test]
fn a_value_beyond_the_range_is_mapped_as_the_bound() {
    assert_eq!(normalized(10000.0, -30.0, 30.0), normalized(30.0, -30.0, 30.0));
    assert_eq!(normalized(-10000.0, -30.0, 30.0), normalized(-30.0, -30.0, 30.0));
    assert_eq!(normalized(30.0, -30.0, 30.0), -10.0);
    assert_eq!(normalized(-30.0, -30.0, 30.0), 10.0);
    assert_eq!(normalized(0.0, -30.0, 30.0), -0.0);
    // the bounds may come in either order
    assert_eq!(normalized(15.0, 30.0, -30.0), -5.0);
    // in a range without width every value is the middle, and is mapped to the resting value
    let flat = f(normalize_parameter_value(
        &unit,
        s(3.0),
        s(2.0),
        s(2.0),
        s(0.0),
        s(-10.0),
        s(10.0),
        s(4.0),
        true,
    ));
    assert_eq!(flat, 4.0);
    // what is not a number is mapped to the resting value
    let lost = f(normalize_parameter_value(
        &unit,
        s(f32::NAN),
        s(-30.0),
        s(30.0),
        s(0.0),
        s(-10.0),
        s(10.0),
        s(4.0),
        true,
    ));
    assert_eq!(lost, 4.0);
    // an inverted input keeps the sign
    let kept = f(normalize_parameter_value(
        &unit,
        s(15.0),
        s(-30.0),
        s(30.0),
        s(0.0),
        s(-10.0),
        s(10.0),
        s(0.0),
        true,
    ));
    assert_eq!(kept, 5.0);
}

#[test]
fn the_position_of_a_chain_is_turned_about_the_origin() {
    // a quarter turn takes the horizontal unit onto the vertical one
    let turned = rotated(&unit, v(1.0, 0.0), s(-90.0));
    assert_eq!(f(turned.y), 1.0);
    assert_eq!(f(turned.x), std::f32::consts::FRAC_PI_2.cos());
    let turned = rotated(&unit, v(0.0, 1.0), s(-90.0));
    assert_eq!(f(turned.x), -1.0);
    assert_eq!(f(turned.y), std::f32::consts::FRAC_PI_2.cos());
    assert_eq!(pair(rotated(&unit, v(3.0, -4.0), s(0.0))), (3.0, -4.0));
    let half = pair(rotated(&unit, v(3.0, -4.0), s(180.0)));
    assert!((half.0 + 3.0).abs() < 1.0e-5 && (half.1 - 4.0).abs() < 1.0e-5);

    for (x, y, angle) in [(1.0f32, 0.0f32, 30.0f32), (-2.5, 4.0, -75.0), (0.3, 0.7, 200.0)] {
        let r = ((-angle) / 180.0) * std::f32::consts::PI;
        let expected = (x * r.cos() - y * r.sin(), x * r.sin() + y * r.cos());
        let turned = rotated(&unit, v(x, y), s(angle));
        assert_eq!(pair(turned), expected);
        let before = (x * x + y * y).sqrt();
        let after = (expected.0 * expected.0 + expected.1 * expected.1).sqrt();
        assert!((before - after).abs() < 1.0e-5);
    }
}
