use live2d_mini::arith::Op;
use live2d_mini::fault::Fault;
use live2d_mini::model_resource::{Live2DModelResource, Live2DParameter};
use live2d_mini::physic::Physics;
use live2d_mini::physic_json::{
    EffectiveForces, InputParam, InputSource, Meta, Normalize, NormalizeAngle,
    NormalizePosition, OutputDestination, OutputParam, PhysicJson, PhysicsSetting, Vec2,
    Vertice,
};
use live2d_mini::scalar::Scalar;

fn s(x: f32) -> Scalar {
    Scalar { bits: x.to_bits() }
}

fn f(x: Scalar) -> f32 {
    f32::from_bits(x.bits)
}

fn unit(op: Op, a: Scalar, b: Scalar) -> Scalar {
    let x = f(a);
    let y = f(b);
    s(match op {
        Op::Add => x + y,
        Op::Sub => x - y,
        Op::Mul => x * y,
        Op::Div => x / y,
        Op::Sqrt => x.sqrt(),
        Op::Cbrt => x.cbrt(),
        Op::Pow => x.powf(y),
        Op::Sin => x.sin(),
        Op::Cos => x.cos(),
        Op::Acos => x.acos(),
        Op::Atan2 => x.atan2(y),
    })
}

fn input(id: &str, weight: f32, axis: &str) -> InputParam {
    InputParam {
        source: InputSource { target: "Parameter".to_string(), id: id.to_string() },
        weight: s(weight),
        input_type: axis.to_string(),
        reflect: false,
    }
}

fn output(id: &str, vertex_index: usize, scale: f32, weight: f32, axis: &str) -> OutputParam {
    OutputParam {
        destination: OutputDestination { target: "Parameter".to_string(), id: id.to_string() },
        vertex_index,
        scale: s(scale),
        weight: s(weight),
        output_type: axis.to_string(),
        reflect: false,
    }
}

fn vertex(y: f32, mobility: f32, delay: f32, acceleration: f32, radius: f32) -> Vertice {
    Vertice {
        position: Vec2 { x: s(0.0), y: s(y) },
        mobility: s(mobility),
        delay: s(delay),
        acceleration: s(acceleration),
        radius: s(radius),
    }
}

fn hair_setting() -> PhysicsSetting {
    PhysicsSetting {
        id: "PhysicsSetting1".to_string(),
        input: vec![
            input("ParamAngleX", 60.0, "X"),
            input("ParamAngleZ", 60.0, "Angle"),
            input("ParamBodyAngleX", 40.0, "X"),
        ],
        output: vec![output("ParamHairFront", 1, 1.522, 100.0, "Angle")],
        vertices: vec![vertex(0.0, 1.0, 1.0, 1.0, 0.0), vertex(3.0, 0.95, 0.9, 1.5, 3.0)],
        normalization: Normalize {
            position: NormalizePosition { minimum: s(-10.0), default: s(0.0), maximum: s(10.0) },
            angle: NormalizeAngle { minimum: s(-10.0), default: s(0.0), maximum: s(10.0) },
        },
    }
}

fn description(settings: Vec<PhysicsSetting>, fps: Option<f32>) -> PhysicJson {
    let inputs: usize = settings.iter().map(|x| x.input.len()).sum();
    let outputs: usize = settings.iter().map(|x| x.output.len()).sum();
    let vertices: usize = settings.iter().map(|x| x.vertices.len()).sum();
    PhysicJson {
        version: 3,
        meta: Meta {
            physics_setting_count: settings.len() as i32,
            total_input_count: inputs as i32,
            total_output_count: outputs as i32,
            vertex_count: vertices as i32,
            effective_forces: EffectiveForces {
                gravity: Vec2 { x: s(0.0), y: s(-1.0) },
                wind: Vec2 { x: s(0.0), y: s(0.0) },
            },
            physics_dictionary: vec![],
            fps: fps.map(s),
        },
        physics_settings: settings,
    }
}

fn parameter(id: &str, minimum: f32, maximum: f32, default: f32, value: f32) -> Live2DParameter {
    Live2DParameter {
        id: id.to_string(),
        minimum_value: s(minimum),
        maximum_value: s(maximum),
        default_value: s(default),
        value: s(value),
    }
}

fn model() -> Live2DModelResource {
    Live2DModelResource {
        parameters: vec![
            parameter("ParamAngleX", -30.0, 30.0, 0.0, 12.0),
            parameter("ParamAngleZ", -30.0, 30.0, 0.0, -4.0),
            parameter("ParamBodyAngleX", -10.0, 10.0, 0.0, 2.0),
            parameter("ParamHairFront", -1.0, 1.0, 0.0, 0.0),
        ],
        parts: vec![],
        drawables: vec![],
    }
}

fn values(model: &Live2DModelResource) -> Vec<u32> {
    model.parameters.iter().map(|p| p.value.bits).collect()
}

fn snapshot(physics: &Physics) -> String {
    format!("{:?}", physics)
}

#[test]
fn a_rig_is_built_chain_by_chain() {
    let mut second = hair_setting();
    second.id = "PhysicsSetting2".to_string();
    second.output.push(output("ParamHairSide", 1, 2.0, 50.0, "X"));
    let physics = Physics::new(&description(vec![hair_setting(), second], None)).unwrap();

    let rig = &physics.physics_rig;
    assert_eq!(rig.sub_rig_count, 2);
    assert_eq!(rig.settings.len(), 2);
    assert_eq!(rig.inputs.len(), 6);
    assert_eq!(rig.outputs.len(), 3);
    assert_eq!(rig.particles.len(), 4);
    assert_eq!(
        (
            rig.settings[1].base_input_index,
            rig.settings[1].base_output_index,
            rig.settings[1].base_particle_index
        ),
        (3, 1, 2)
    );
    assert_eq!(
        (
            rig.settings[1].input_count,
            rig.settings[1].output_count,
            rig.settings[1].particle_count
        ),
        (3, 2, 2)
    );
    assert_eq!(physics.current_rig_outputs.iter().map(|r| r.len()).collect::<Vec<_>>(), vec![1, 2]);
    assert_eq!(physics.previous_rig_outputs.iter().map(|r| r.len()).collect::<Vec<_>>(), vec![1, 2]);
    assert!(rig.inputs.iter().all(|i| i.source_parameter_index.is_none()));
    assert!(rig.outputs.iter().all(|o| o.destination_parameter_index.is_none()));
    assert_eq!(f(rig.outputs[2].angle_scale), 2.0);
    assert_eq!(f(rig.particles[3].position.y), 3.0);
    assert_eq!(f(physics.current_remain_time), 0.0);
}

#[test]
fn a_description_with_an_unknown_axis_is_malformed() {
    let mut setting = hair_setting();
    setting.input[1].input_type = "Z".to_string();
    assert_eq!(
        Physics::new(&description(vec![setting], None)).err(),
        Some(Fault::MalformedDescriptor)
    );

    let mut setting = hair_setting();
    setting.output[0].output_type = "angle".to_string();
    assert_eq!(
        Physics::new(&description(vec![setting], None)).err(),
        Some(Fault::MalformedDescriptor)
    );
}

#[test]
fn a_description_with_an_empty_chain_or_wrong_totals_is_malformed() {
    let mut setting = hair_setting();
    setting.vertices.clear();
    assert_eq!(
        Physics::new(&description(vec![setting], None)).err(),
        Some(Fault::MalformedDescriptor)
    );

    let mut json = description(vec![hair_setting()], None);
    json.meta.total_input_count = 2;
    assert_eq!(Physics::new(&json).err(), Some(Fault::MalformedDescriptor));

    let mut json = description(vec![hair_setting()], None);
    json.meta.vertex_count = -2;
    assert_eq!(Physics::new(&json).err(), Some(Fault::MalformedDescriptor));
}

#[test]
fn particles_come_to_rest_below_each_other() {
    let mut setting = hair_setting();
    setting.vertices.push(vertex(7.0, 0.9, 0.8, 1.2, 4.5));
    let mut physics = Physics::new(&description(vec![setting], None)).unwrap();
    physics.initialize(&unit);

    let particles = &physics.physics_rig.particles;
    assert_eq!((f(particles[0].initial_position.x), f(particles[0].initial_position.y)), (0.0, 0.0));
    assert_eq!((f(particles[1].initial_position.x), f(particles[1].initial_position.y)), (0.0, 3.0));
    assert_eq!((f(particles[2].initial_position.x), f(particles[2].initial_position.y)), (0.0, 7.5));
    assert_eq!((f(particles[2].last_position.x), f(particles[2].last_position.y)), (0.0, 7.5));
    assert_eq!((f(particles[1].last_gravity.x), f(particles[1].last_gravity.y)), (0.0, 1.0));
    assert_eq!((f(particles[2].last_gravity.x), f(particles[2].last_gravity.y)), (0.0, 1.0));
    assert_eq!(f(particles[2].position.y), 7.0);
}

#[test]
fn no_time_is_no_change() {
    let mut physics = Physics::new(&description(vec![hair_setting()], Some(60.0))).unwrap();
    physics.initialize(&unit);
    let mut model = model();
    physics.evaluate(&unit, &mut model, s(0.02)).unwrap();

    for delta in [0.0f32, -0.0, -1.0, f32::NEG_INFINITY] {
        let before = snapshot(&physics);
        let values_before = values(&model);
        assert_eq!(physics.evaluate(&unit, &mut model, s(delta)), Ok(()));
        assert_eq!(snapshot(&physics), before);
        assert_eq!(values(&model), values_before);
    }
}

#[test]
fn parameters_are_looked_up_at_the_first_step_and_kept() {
    let mut physics = Physics::new(&description(vec![hair_setting()], Some(60.0))).unwrap();
    physics.initialize(&unit);
    let mut model = model();

    // a hundredth of a second is less than one step at sixty steps per second
    physics.evaluate(&unit, &mut model, s(0.01)).unwrap();
    assert!(physics.physics_rig.inputs.iter().all(|i| i.source_parameter_index.is_none()));
    assert!(physics.physics_rig.outputs.iter().all(|o| o.destination_parameter_index.is_none()));
    assert_eq!(f(physics.current_remain_time), 0.01);
    assert_eq!(physics.parameter_cache.len(), 4);
    assert_eq!(
        physics.parameter_input_cache.iter().map(|x| f(*x)).collect::<Vec<_>>(),
        vec![12.0, -4.0, 2.0, 0.0]
    );
    assert_eq!(f(model.parameters[3].value), 0.0);

    physics.evaluate(&unit, &mut model, s(0.01)).unwrap();
    assert_eq!(
        physics
            .physics_rig
            .inputs
            .iter()
            .map(|i| i.source_parameter_index)
            .collect::<Vec<_>>(),
        vec![Some(0), Some(1), Some(2)]
    );
    assert_eq!(physics.physics_rig.outputs[0].destination_parameter_index, Some(3));
    assert!(f(physics.current_remain_time) < 1.0 / 60.0);
    assert!(f(physics.current_remain_time) >= 0.0);
}

#[test]
fn a_step_moves_the_chain_and_writes_the_output() {
    let mut physics = Physics::new(&description(vec![hair_setting()], None)).unwrap();
    physics.initialize(&unit);
    let mut model = model();

    physics.evaluate(&unit, &mut model, s(0.02)).unwrap();

    // without a fixed rate the whole time is one step, and nothing is left
    assert_eq!(f(physics.current_remain_time), 0.0);
    let root = physics.physics_rig.particles[0];
    let tip = physics.physics_rig.particles[1];
    assert_eq!((f(tip.last_position.x), f(tip.last_position.y)), (0.0, 3.0));
    assert_ne!((f(root.position.x), f(root.position.y)), (0.0, 0.0));
    let dx = f(tip.position.x) - f(root.position.x);
    let dy = f(tip.position.y) - f(root.position.y);
    assert!(((dx * dx + dy * dy).sqrt() - 3.0).abs() < 1.0e-4);
    assert_eq!((f(tip.force.x), f(tip.force.y)), (0.0, 0.0));
    assert_eq!(f(physics.previous_rig_outputs[0][0]), 0.0);
    assert_ne!(f(physics.current_rig_outputs[0][0]), 0.0);

    // all of the step is done, so the blend takes the output of the step before
    let written = f(model.parameters[3].value);
    assert_eq!(written, 0.0);
    assert!(f(physics.parameter_cache[3]) >= -1.0 && f(physics.parameter_cache[3]) <= 1.0);
    assert_eq!(values(&model)[..3], [12.0f32.to_bits(), (-4.0f32).to_bits(), 2.0f32.to_bits()]);
}

#[test]
fn more_than_five_seconds_are_dropped() {
    let mut physics = Physics::new(&description(vec![hair_setting()], Some(30.0))).unwrap();
    physics.initialize(&unit);
    let mut model = model();
    let before = format!("{:?}", physics.physics_rig.particles);

    physics.evaluate(&unit, &mut model, s(5.5)).unwrap();

    assert_eq!(f(physics.current_remain_time), 0.0);
    assert_eq!(format!("{:?}", physics.physics_rig.particles), before);
    assert!(physics.physics_rig.inputs.iter().all(|i| i.source_parameter_index.is_none()));
}

#[test]
fn a_fixed_rate_takes_whole_steps_and_keeps_the_rest() {
    let mut physics = Physics::new(&description(vec![hair_setting()], Some(50.0))).unwrap();
    physics.initialize(&unit);
    let mut model = model();

    physics.evaluate(&unit, &mut model, s(0.05)).unwrap();

    let step = 1.0f32 / 50.0;
    let mut left = 0.0f32 + 0.05;
    let mut steps = 0;
    while left >= step {
        left -= step;
        steps += 1;
    }
    assert_eq!(steps, 2);
    assert_eq!(f(physics.current_remain_time), left);
    assert!(left < step);
}

#[test]
fn an_unknown_parameter_fails_the_step_and_changes_nothing() {
    let mut setting = hair_setting();
    setting.output[0].destination.id = "ParamMissing".to_string();
    let mut physics = Physics::new(&description(vec![setting], Some(60.0))).unwrap();
    physics.initialize(&unit);
    let mut model = model();

    // no step is due yet: nothing is looked up, and nothing fails
    assert_eq!(physics.evaluate(&unit, &mut model, s(0.01)), Ok(()));

    let before = snapshot(&physics);
    let values_before = values(&model);
    assert_eq!(physics.evaluate(&unit, &mut model, s(0.01)), Err(Fault::UnknownParameterId));
    assert_eq!(snapshot(&physics), before);
    assert_eq!(values(&model), values_before);
}

#[test]
fn an_index_that_does_not_fit_the_model_fails() {
    let mut physics = Physics::new(&description(vec![hair_setting()], None)).unwrap();
    physics.initialize(&unit);
    let mut full = model();
    physics.evaluate(&unit, &mut full, s(0.02)).unwrap();

    let mut small = model();
    small.parameters.truncate(2);
    let before = snapshot(&physics);
    assert_eq!(physics.evaluate(&unit, &mut small, s(0.02)), Err(Fault::UnknownParameterId));
    assert_eq!(snapshot(&physics), before);
}

#[test]
fn records_of_values_outside_the_range_only_move_outwards() {
    let mut setting = hair_setting();
    setting.output[0].scale = s(40.0);
    let mut physics = Physics::new(&description(vec![setting], Some(60.0))).unwrap();
    physics.initialize(&unit);
    let mut model = model();

    let mut below = 0.0f32;
    let mut above = 0.0f32;
    let mut moved = false;
    for frame in 0..120 {
        model.parameters[0].value = s(if frame % 40 < 20 { 30.0 } else { -30.0 });
        model.parameters[1].value = s(if frame % 30 < 15 { -30.0 } else { 30.0 });
        physics.evaluate(&unit, &mut model, s(1.0 / 60.0)).unwrap();
        let output = &physics.physics_rig.outputs[0];
        assert!(f(output.value_below_minimum) <= below);
        assert!(f(output.value_exceeded_maximum) >= above);
        moved = moved
            || f(output.value_below_minimum) < below
            || f(output.value_exceeded_maximum) > above;
        below = f(output.value_below_minimum);
        above = f(output.value_exceeded_maximum);
        let value = f(model.parameters[3].value);
        assert!(value >= -1.0 && value <= 1.0);
    }
    assert!(moved);
}
