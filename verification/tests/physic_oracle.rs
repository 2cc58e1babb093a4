use live2d_mini::arith::Op;
use live2d_mini::model_resource::{Live2DModelResource, Live2DParameter};
use live2d_mini::physic::types::Physics;
use live2d_mini::physic_json::{
    EffectiveForces, InputParam, InputSource, Meta, Normalize, NormalizeAngle,
    NormalizePosition, OutputDestination, OutputParam, PhysicJson, PhysicsSetting, Vec2,
    Vertice,
};
use live2d_mini::scalar::Scalar;

fn s(x: f32) -> Scalar {
    Scalar { bits: x.to_bits() }
}

fn unit(op: Op, a: Scalar, b: Scalar) -> Scalar {
    let x = f32::from_bits(a.bits);
    let y = f32::from_bits(b.bits);
    s(match op {
        Op::Add => x + y,
        Op::Sub => x - y,
        Op::Mul => x * y,
        Op::Div => x / y,
        Op::Sqrt => x.sqrt(),
        Op::Cbrt => x.cbrt(),
        Op::Pow => x.powf(y),
        Op::Sin => x.sin(),
        Op::Cos => x.cos(),
        Op::Acos => x.acos(),
        Op::Atan2 => x.atan2(y),
    })
}

// The same simulation, written out on the machine's numbers, to hold the library against.

#[derive(Clone, Copy, Debug, PartialEq)]
struct V {
    x: f32,
    y: f32,
}

fn v(x: f32, y: f32) -> V {
    V { x, y }
}

fn sub(a: V, b: V) -> V {
    v(a.x - b.x, a.y - b.y)
}

fn add(a: V, b: V) -> V {
    v(a.x + b.x, a.y + b.y)
}

fn mul(a: V, k: f32) -> V {
    v(a.x * k, a.y * k)
}

fn div(a: V, k: f32) -> V {
    v(a.x / k, a.y / k)
}

fn normalize(a: V) -> V {
    let length = (a.x * a.x + a.y * a.y).powf(0.5);
    div(a, length)
}

const PI: f32 = std::f32::consts::PI;

fn radians(degrees: f32) -> f32 {
    (degrees / 180.0) * PI
}

fn to_radian(from: V, to: V) -> f32 {
    let q1 = to.y.atan2(to.x);
    let q2 = from.y.atan2(from.x);
    let mut ret = q1 - q2;
    while ret < -PI {
        ret += PI * 2.0;
    }
    while ret > PI {
        ret -= PI * 2.0;
    }
    ret
}

#[derive(Clone, Copy, Debug, PartialEq)]
enum Axis {
    X,
    Y,
    Angle,
}

#[derive(Clone, Debug)]
struct In {
    id: usize,
    index: Option<usize>,
    weight: f32,
    axis: Axis,
    reflect: bool,
}

#[derive(Clone, Debug)]
struct Out {
    id: usize,
    index: Option<usize>,
    vertex_index: usize,
    angle_scale: f32,
    weight: f32,
    axis: Axis,
    reflect: bool,
    below: f32,
    above: f32,
}

#[derive(Clone, Copy, Debug)]
struct Particle {
    initial_position: V,
    mobility: f32,
    delay: f32,
    acceleration: f32,
    radius: f32,
    position: V,
    last_position: V,
    last_gravity: V,
    force: V,
    velocity: V,
}

#[derive(Clone, Debug)]
struct Chain {
    inputs: Vec<In>,
    outputs: Vec<Out>,
    particles: Vec<Particle>,
    position: (f32, f32, f32),
    angle: (f32, f32, f32),
    current: Vec<f32>,
    previous: Vec<f32>,
}

#[derive(Clone, Debug)]
struct Oracle {
    chains: Vec<Chain>,
    fps: Option<f32>,
    remain: f32,
    cache: Vec<f32>,
    input_cache: Vec<f32>,
}

#[derive(Clone, Debug)]
struct Store {
    values: Vec<f32>,
    minimums: Vec<f32>,
    maximums: Vec<f32>,
    defaults: Vec<f32>,
}

fn normalized(value: f32, pmin: f32, pmax: f32, range: (f32, f32, f32), inverted: bool) -> f32 {
    let mut result = 0.0;
    let max_value = pmax.max(pmin);
    let value = if max_value < value { max_value } else { value };
    let min_value = pmax.min(pmin);
    let value = if min_value > value { min_value } else { value };
    let min_norm = range.0.min(range.1);
    let max_norm = range.0.max(range.1);
    let middle_norm = range.2;
    let middle = min_value.min(max_value) + ((max_value.max(min_value) - max_value.min(min_value)).abs() / 2.0);
    let distance = value - middle;
    if distance > 0.0 {
        let n_length = max_norm - middle_norm;
        let p_length = max_value - middle;
        if p_length != 0.0 {
            result = distance * (n_length / p_length) + middle_norm;
        }
    } else if distance < 0.0 {
        let n_length = min_norm - middle_norm;
        let p_length = min_value - middle;
        if p_length != 0.0 {
            result = distance * (n_length / p_length) + middle_norm;
        }
    } else {
        result = middle_norm;
    }
    if inverted {
        result
    } else {
        -result
    }
}

fn blend(value_in: &mut f32, minimum: f32, maximum: f32, translation: f32, output: &mut Out) {
    let scale = match output.axis {
        Axis::X | Axis::Y => 0.0,
        Axis::Angle => output.angle_scale,
    };
    let mut value = translation * scale;
    if value < minimum {
        if value < output.below {
            output.below = value;
        }
        value = minimum;
    } else if value > maximum {
        if value > output.above {
            output.above = value;
        }
        value = maximum;
    }
    let weight = output.weight / 100.0;
    if weight >= 1.0 {
        *value_in = value;
    } else {
        *value_in = (*value_in * (1.0 - weight)) + (value + weight);
    }
}

fn step_particles(strand: &mut [Particle], translation: V, angle: f32, threshold: f32, dt: f32) {
    strand[0].position = translation;
    let total = radians(angle);
    let gravity = normalize(v(total.sin(), total.cos()));
    for i in 1..strand.len() {
        strand[i].last_position = strand[i].position;
        let radian = to_radian(strand[i].last_gravity, gravity) / 5.0;
        let mut direction = sub(strand[i].position, strand[i - 1].position);
        direction.x = (radian.cos() * direction.x) - (direction.y * radian.sin());
        direction.y = (radian.sin() * direction.x) + (direction.y * radian.cos());
        let delay = strand[i].delay * dt * 30.0;
        let velocity = v(strand[i].velocity.x * delay, strand[i].velocity.y * delay);
        let force = mul(mul(add(mul(gravity, strand[i].acceleration), v(0.0, 0.0)), delay), delay);
        let new_direction = normalize(add(add(direction, velocity), force));
        strand[i].position = add(strand[i - 1].position, mul(new_direction, strand[i].radius));
        if strand[i].position.x.abs() < threshold {
            strand[i].position.x = 0.0;
        }
        if delay != 0.0 {
            strand[i].velocity =
                mul(div(sub(strand[i].position, strand[i].last_position), delay), strand[i].mobility);
        }
        strand[i].force = v(0.0, 0.0);
        strand[i].last_gravity = gravity;
    }
}

impl Oracle {
    fn initialize(&mut self) {
        for chain in self.chains.iter_mut() {
            let mut rest = v(0.0, 0.0);
            for particle in chain.particles.iter_mut().skip(1) {
                particle.initial_position = add(rest, v(0.0, particle.radius));
                particle.last_position = particle.initial_position;
                particle.last_gravity = v(0.0, 1.0);
                particle.velocity = v(0.0, 0.0);
                particle.force = v(0.0, 0.0);
                rest = particle.initial_position;
            }
        }
    }

    fn evaluate(&mut self, store: &mut Store, ids: &[usize], delta: f32) {
        if 0.0 >= delta {
            return;
        }
        self.remain += delta;
        if self.remain > 5.0 {
            self.remain = 0.0;
        }
        let count = store.values.len();
        if self.cache.len() < count {
            self.cache = vec![0.0; count];
        }
        if self.input_cache.len() < count {
            self.input_cache = store.values.clone();
        }
        let dt = match self.fps {
            Some(fps) if fps > 0.0 => 1.0 / fps,
            _ => delta,
        };
        while self.remain >= dt {
            for chain in self.chains.iter_mut() {
                chain.previous = chain.current.clone();
            }
            let weight = dt / self.remain;
            for j in 0..count {
                self.cache[j] = self.input_cache[j] * (1.0 - weight) + store.values[j] * weight;
                self.input_cache[j] = self.cache[j];
            }
            for chain in self.chains.iter_mut() {
                let mut angle = 0.0f32;
                let mut translation = v(0.0, 0.0);
                for input in chain.inputs.iter_mut() {
                    let weight = input.weight / 100.0;
                    if input.index.is_none() {
                        input.index = ids.iter().position(|id| *id == input.id);
                    }
                    let at = input.index.unwrap();
                    let range = if input.axis == Axis::Angle { chain.angle } else { chain.position };
                    let term = normalized(
                        self.cache[at],
                        store.minimums[at],
                        store.maximums[at],
                        range,
                        input.reflect,
                    ) * weight;
                    match input.axis {
                        Axis::X => translation.x += term,
                        Axis::Y => translation.y += term,
                        Axis::Angle => angle += term,
                    }
                }
                let turn = radians(-angle);
                translation = v(
                    translation.x * turn.cos() - translation.y * turn.sin(),
                    translation.x * turn.sin() + translation.y * turn.cos(),
                );
                step_particles(&mut chain.particles, translation, angle, 0.001 * chain.position.1, dt);
                for i in 0..chain.outputs.len() {
                    let vertex = chain.outputs[i].vertex_index;
                    if chain.outputs[i].index.is_none() {
                        let id = chain.outputs[i].id;
                        chain.outputs[i].index = ids.iter().position(|x| *x == id);
                    }
                    if vertex < 1 || vertex >= chain.particles.len() {
                        continue;
                    }
                    let step = sub(chain.particles[vertex].position, chain.particles[vertex - 1].position);
                    let flip = |x: f32| if chain.outputs[i].reflect { x * -1.0 } else { x };
                    let value = match chain.outputs[i].axis {
                        Axis::X => flip(step.x),
                        Axis::Y => flip(step.y),
                        Axis::Angle => {
                            let above = if vertex >= 2 {
                                sub(chain.particles[vertex - 1].position, chain.particles[vertex - 2].position)
                            } else {
                                mul(v(0.0, -1.0), -1.0)
                            };
                            flip(to_radian(above, step))
                        }
                    };
                    chain.current[i] = value;
                    let at = chain.outputs[i].index.unwrap();
                    blend(
                        &mut self.cache[at],
                        store.minimums[at],
                        store.maximums[at],
                        value,
                        &mut chain.outputs[i],
                    );
                }
            }
            self.remain -= dt;
        }
        let alpha = self.remain / dt;
        for chain in self.chains.iter_mut() {
            for i in 0..chain.outputs.len() {
                if let Some(at) = chain.outputs[i].index {
                    let value = chain.previous[i] * (1.0 - alpha) + chain.current[i] * alpha;
                    blend(
                        &mut store.values[at],
                        store.minimums[at],
                        store.maximums[at],
                        value,
                        &mut chain.outputs[i],
                    );
                }
            }
        }
    }
}

// A small generator of numbers, so that the runs are the same every time.
struct Dice(u32);

impl Dice {
    fn next(&mut self) -> u32 {
        self.0 ^= self.0 << 13;
        self.0 ^= self.0 >> 17;
        self.0 ^= self.0 << 5;
        self.0
    }

    fn below(&mut self, n: u32) -> u32 {
        self.next() % n
    }

    fn between(&mut self, low: f32, high: f32) -> f32 {
        low + (high - low) * (self.below(10_001) as f32 / 10_000.0)
    }
}

const NAMES: [&str; 6] =
    ["ParamAngleX", "ParamAngleY", "ParamAngleZ", "ParamBodyAngleX", "ParamHairFront", "ParamHairSide"];

fn axis_word(axis: Axis) -> &'static str {
    match axis {
        Axis::X => "X",
        Axis::Y => "Y",
        Axis::Angle => "Angle",
    }
}

fn pick_axis(dice: &mut Dice) -> Axis {
    match dice.below(3) {
        0 => Axis::X,
        1 => Axis::Y,
        _ => Axis::Angle,
    }
}

fn random_chain(dice: &mut Dice) -> Chain {
    let input_count = 1 + dice.below(3) as usize;
    let output_count = 1 + dice.below(3) as usize;
    let particle_count = 2 + dice.below(3) as usize;
    let inputs = (0..input_count)
        .map(|_| In {
            id: dice.below(4) as usize,
            index: None,
            weight: [100.0, 60.0, 40.0, 25.0][dice.below(4) as usize],
            axis: pick_axis(dice),
            reflect: dice.below(2) == 0,
        })
        .collect();
    let outputs = (0..output_count)
        .map(|_| Out {
            id: 4 + dice.below(2) as usize,
            index: None,
            vertex_index: dice.below(particle_count as u32 + 1) as usize,
            angle_scale: dice.between(0.5, 30.0),
            weight: [100.0, 100.0, 80.0, 150.0][dice.below(4) as usize],
            axis: pick_axis(dice),
            reflect: dice.below(2) == 0,
            below: 0.0,
            above: 0.0,
        })
        .collect();
    let mut height = 0.0f32;
    let particles = (0..particle_count)
        .map(|i| {
            let radius = if i == 0 { 0.0 } else { dice.between(1.0, 6.0) };
            height += radius;
            Particle {
                initial_position: v(0.0, 0.0),
                mobility: dice.between(0.7, 1.0),
                delay: dice.between(0.5, 1.0),
                acceleration: dice.between(0.8, 2.0),
                radius,
                position: v(0.0, height),
                last_position: v(0.0, 0.0),
                last_gravity: v(0.0, 0.0),
                force: v(0.0, 0.0),
                velocity: v(0.0, 0.0),
            }
        })
        .collect();
    Chain {
        inputs,
        outputs,
        particles,
        position: (-10.0, 10.0, 0.0),
        angle: (-dice.between(5.0, 15.0), dice.between(5.0, 15.0), 0.0),
        current: vec![0.0; output_count],
        previous: vec![0.0; output_count],
    }
}

fn describe(oracle: &Oracle) -> PhysicJson {
    let settings: Vec<PhysicsSetting> = oracle
        .chains
        .iter()
        .enumerate()
        .map(|(k, chain)| PhysicsSetting {
            id: format!("PhysicsSetting{}", k + 1),
            input: chain
                .inputs
                .iter()
                .map(|input| InputParam {
                    source: InputSource {
                        target: "Parameter".to_string(),
                        id: NAMES[input.id].to_string(),
                    },
                    weight: s(input.weight),
                    input_type: axis_word(input.axis).to_string(),
                    reflect: input.reflect,
                })
                .collect(),
            output: chain
                .outputs
                .iter()
                .map(|output| OutputParam {
                    destination: OutputDestination {
                        target: "Parameter".to_string(),
                        id: NAMES[output.id].to_string(),
                    },
                    vertex_index: output.vertex_index,
                    scale: s(output.angle_scale),
                    weight: s(output.weight),
                    output_type: axis_word(output.axis).to_string(),
                    reflect: output.reflect,
                })
                .collect(),
            vertices: chain
                .particles
                .iter()
                .map(|particle| Vertice {
                    position: Vec2 { x: s(particle.position.x), y: s(particle.position.y) },
                    mobility: s(particle.mobility),
                    delay: s(particle.delay),
                    acceleration: s(particle.acceleration),
                    radius: s(particle.radius),
                })
                .collect(),
            normalization: Normalize {
                position: NormalizePosition {
                    minimum: s(chain.position.0),
                    maximum: s(chain.position.1),
                    default: s(chain.position.2),
                },
                angle: NormalizeAngle {
                    minimum: s(chain.angle.0),
                    maximum: s(chain.angle.1),
                    default: s(chain.angle.2),
                },
            },
        })
        .collect();
    PhysicJson {
        version: 3,
        meta: Meta {
            physics_setting_count: settings.len() as i32,
            total_input_count: settings.iter().map(|x| x.input.len()).sum::<usize>() as i32,
            total_output_count: settings.iter().map(|x| x.output.len()).sum::<usize>() as i32,
            vertex_count: settings.iter().map(|x| x.vertices.len()).sum::<usize>() as i32,
            effective_forces: EffectiveForces {
                gravity: Vec2 { x: s(0.0), y: s(-1.0) },
                wind: Vec2 { x: s(0.0), y: s(0.0) },
            },
            physics_dictionary: vec![],
            fps: oracle.fps.map(s),
        },
        physics_settings: settings,
    }
}

fn bits(numbers: &[f32]) -> Vec<u32> {
    numbers.iter().map(|x| x.to_bits()).collect()
}

fn pair(p: V) -> (u32, u32) {
    (p.x.to_bits(), p.y.to_bits())
}

fn pair_of(p: live2d_mini::physic::vector::CubismVector2) -> (u32, u32) {
    (p.x.bits, p.y.bits)
}

fn assert_same(frame: usize, oracle: &Oracle, store: &Store, physics: &Physics, model: &Live2DModelResource) {
    let context = format!("frame {}", frame);
    assert_eq!(physics.current_remain_time.bits, oracle.remain.to_bits(), "{}", context);
    assert_eq!(
        physics.parameter_cache.iter().map(|x| x.bits).collect::<Vec<_>>(),
        bits(&oracle.cache),
        "{}",
        context
    );
    assert_eq!(
        physics.parameter_input_cache.iter().map(|x| x.bits).collect::<Vec<_>>(),
        bits(&oracle.input_cache),
        "{}",
        context
    );
    assert_eq!(
        model.parameters.iter().map(|p| p.value.bits).collect::<Vec<_>>(),
        bits(&store.values),
        "{}",
        context
    );
    let mut input = 0;
    let mut output = 0;
    let mut particle = 0;
    for (k, chain) in oracle.chains.iter().enumerate() {
        assert_eq!(
            physics.current_rig_outputs[k].iter().map(|x| x.bits).collect::<Vec<_>>(),
            bits(&chain.current),
            "{}",
            context
        );
        assert_eq!(
            physics.previous_rig_outputs[k].iter().map(|x| x.bits).collect::<Vec<_>>(),
            bits(&chain.previous),
            "{}",
            context
        );
        for expected in chain.inputs.iter() {
            let got = &physics.physics_rig.inputs[input];
            assert_eq!(got.source_parameter_index, expected.index, "{}", context);
            input += 1;
        }
        for expected in chain.outputs.iter() {
            let got = &physics.physics_rig.outputs[output];
            assert_eq!(got.destination_parameter_index, expected.index, "{}", context);
            assert_eq!(got.value_below_minimum.bits, expected.below.to_bits(), "{}", context);
            assert_eq!(got.value_exceeded_maximum.bits, expected.above.to_bits(), "{}", context);
            output += 1;
        }
        for expected in chain.particles.iter() {
            let got = &physics.physics_rig.particles[particle];
            assert_eq!(pair_of(got.position), pair(expected.position), "{}", context);
            assert_eq!(pair_of(got.last_position), pair(expected.last_position), "{}", context);
            assert_eq!(pair_of(got.last_gravity), pair(expected.last_gravity), "{}", context);
            assert_eq!(pair_of(got.velocity), pair(expected.velocity), "{}", context);
            assert_eq!(pair_of(got.force), pair(expected.force), "{}", context);
            assert_eq!(
                pair_of(got.initial_position),
                pair(expected.initial_position),
                "{}",
                context
            );
            particle += 1;
        }
    }
}

fn run(seed: u32, fps: Option<f32>, frames: usize) {
    let mut dice = Dice(seed);
    let chain_count = 1 + dice.below(3) as usize;
    let mut oracle = Oracle {
        chains: (0..chain_count).map(|_| random_chain(&mut dice)).collect(),
        fps,
        remain: 0.0,
        cache: vec![],
        input_cache: vec![],
    };
    let mut physics = Physics::new(&describe(&oracle)).unwrap();
    oracle.initialize();
    physics.initialize(&unit);

    let ranges = [30.0f32, 30.0, 30.0, 10.0, 1.0, 1.0];
    let mut store = Store {
        values: (0..6).map(|i| dice.between(-ranges[i], ranges[i])).collect(),
        minimums: ranges.iter().map(|r| -r).collect(),
        maximums: ranges.to_vec(),
        defaults: vec![0.0; 6],
    };
    let mut model = Live2DModelResource {
        parameters: (0..6)
            .map(|i| Live2DParameter {
                id: NAMES[i].to_string(),
                minimum_value: s(store.minimums[i]),
                maximum_value: s(store.maximums[i]),
                default_value: s(store.defaults[i]),
                value: s(store.values[i]),
            })
            .collect(),
        parts: vec![],
        drawables: vec![],
    };
    let ids: Vec<usize> = (0..6).collect();

    assert_same(0, &oracle, &store, &physics, &model);
    for frame in 1..=frames {
        for i in 0..4 {
            if dice.below(3) == 0 {
                let value = dice.between(-ranges[i] * 1.2, ranges[i] * 1.2);
                store.values[i] = value;
                model.parameters[i].value = s(value);
            }
        }
        let delta = match dice.below(8) {
            0 => 0.0,
            1 => -0.01,
            2 => 0.004,
            3 => 0.1,
            _ => dice.between(0.005, 0.04),
        };
        oracle.evaluate(&mut store, &ids, delta);
        physics.evaluate(&unit, &mut model, s(delta)).unwrap();
        assert_same(frame, &oracle, &store, &physics, &model);
    }
}

#[test]
fn the_simulation_agrees_with_its_arithmetic_written_out_at_a_fixed_rate() {
    for seed in 1..=12u32 {
        run(seed.wrapping_mul(0x9e37_79b9) | 1, Some(60.0), 120);
    }
    for seed in 1..=6u32 {
        run(seed.wrapping_mul(0x85eb_ca6b) | 1, Some(30.0), 120);
    }
}

#[test]
fn the_simulation_agrees_with_its_arithmetic_written_out_at_the_rate_of_the_calls() {
    for seed in 1..=12u32 {
        run(seed.wrapping_mul(0xc2b2_ae35) | 1, None, 120);
    }
    for seed in 1..=4u32 {
        run(seed.wrapping_mul(0x27d4_eb2f) | 1, Some(0.0), 60);
    }
}
