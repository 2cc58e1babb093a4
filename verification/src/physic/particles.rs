//! One step of a chain of particles.

use crate::arith::{cos, over, sin, times, to_radians, well_behaved, Op};
use crate::physic::types::CubismPhysicsParticle;
use crate::physic::vector::CubismVector2;
use crate::scalar::Scalar;
use crate::scalar::{THIRTY_BITS, ZERO_BITS};
use vstd::prelude::*;

verus! {

/// The direction in which an angle in radians points: its sine across and
/// its cosine along.
pub open spec fn to_direction_of<A: Fn(Op, Scalar, Scalar) -> Scalar>(
    unit: &A,
    radian: Scalar,
) -> CubismVector2 {
    CubismVector2 { x: sin(unit, radian), y: cos(unit, radian) }
}

/// The direction in which an angle in radians points.
#[verifier::when_used_as_spec(to_direction_of)]
pub fn to_direction<A: Fn(Op, Scalar, Scalar) -> Scalar>(unit: &A, radian: Scalar) -> (r:
    CubismVector2)
    requires
        well_behaved(*unit),
    ensures
        r == to_direction_of(unit, radian),
{
    CubismVector2 { x: sin(unit, radian), y: cos(unit, radian) }
}

/// The direction of gravity for a chain that is turned by `total_angle`
/// degrees, as a vector of length one.
pub open spec fn gravity_direction_of<A: Fn(Op, Scalar, Scalar) -> Scalar>(
    unit: &A,
    total_angle: Scalar,
) -> CubismVector2 {
    to_direction(unit, to_radians(unit, total_angle)).normalize(unit)
}

/// `direction` turned by `radian`. The new vertical component is taken from
/// the horizontal component after the turn.
pub open spec fn swung_of<A: Fn(Op, Scalar, Scalar) -> Scalar>(
    unit: &A,
    direction: CubismVector2,
    radian: Scalar,
) -> CubismVector2 {
    let x = crate::arith::minus(
        unit,
        times(unit, cos(unit, radian), direction.x),
        times(unit, direction.y, sin(unit, radian)),
    );
    let y = crate::arith::plus(
        unit,
        times(unit, sin(unit, radian), x),
        times(unit, direction.y, cos(unit, radian)),
    );
    CubismVector2 { x, y }
}

/// A particle after one step, given where the particle before it now is.
///
/// The step from the particle before is swung by a share of the angle by
/// which gravity has turned since the last step, then moved by the
/// particle's velocity and by gravity and wind, each over the particle's
/// delay, and brought to the length of the particle's radius. A horizontal
/// position nearer to zero than the threshold becomes zero. The velocity is
/// taken from the way travelled unless the delay is zero.
pub open spec fn stepped_particle_of<A: Fn(Op, Scalar, Scalar) -> Scalar>(
    unit: &A,
    previous_position: CubismVector2,
    particle: CubismPhysicsParticle,
    current_gravity: CubismVector2,
    wind_direction: CubismVector2,
    threshold_value: Scalar,
    delta_time_seconds: Scalar,
    air_resistance: Scalar,
) -> CubismPhysicsParticle {
    let zero = Scalar::from_bits(ZERO_BITS);
    let last_position = particle.position;
    let radian = over(
        unit,
        particle.last_gravity.to_radian(unit, &current_gravity),
        air_resistance,
    );
    let direction = swung_of(unit, particle.position.sub(unit, previous_position), radian);
    let delay = times(
        unit,
        times(unit, particle.delay, delta_time_seconds),
        Scalar::from_bits(THIRTY_BITS),
    );
    let velocity = CubismVector2 {
        x: times(unit, particle.velocity.x, delay),
        y: times(unit, particle.velocity.y, delay),
    };
    let force = current_gravity.mul(unit, particle.acceleration).add(unit, wind_direction).mul(
        unit,
        delay,
    ).mul(unit, delay);
    let new_direction = direction.add(unit, velocity).add(unit, force).normalize(unit);
    let reached = previous_position.add(unit, new_direction.mul(unit, particle.radius));
    let position = if reached.x.abs().lt(threshold_value) {
        CubismVector2 { x: zero, y: reached.y }
    } else {
        reached
    };
    let velocity = if delay.eq_value(zero) {
        particle.velocity
    } else {
        position.sub(unit, last_position).div(unit, delay).mul(unit, particle.mobility)
    };
    CubismPhysicsParticle {
        position,
        last_position,
        last_gravity: current_gravity,
        force: CubismVector2::zero(),
        velocity,
        ..particle
    }
}

/// Steps one particle.
#[verifier::when_used_as_spec(stepped_particle_of)]
pub fn stepped_particle<A: Fn(Op, Scalar, Scalar) -> Scalar>(
    unit: &A,
    previous_position: CubismVector2,
    particle: CubismPhysicsParticle,
    current_gravity: CubismVector2,
    wind_direction: CubismVector2,
    threshold_value: Scalar,
    delta_time_seconds: Scalar,
    air_resistance: Scalar,
) -> (r: CubismPhysicsParticle)
    requires
        well_behaved(*unit),
    ensures
        r == stepped_particle_of(
            unit,
            previous_position,
            particle,
            current_gravity,
            wind_direction,
            threshold_value,
            delta_time_seconds,
            air_resistance,
        ),
{
    let zero = Scalar::from_bits(ZERO_BITS);
    let mut next = particle;
    next.last_position = next.position;
    let radian = over(unit, next.last_gravity.to_radian(unit, &current_gravity), air_resistance);

    let mut direction = next.position.sub(unit, previous_position);
    direction.x = crate::arith::minus(
        unit,
        times(unit, cos(unit, radian), direction.x),
        times(unit, direction.y, sin(unit, radian)),
    );
    direction.y = crate::arith::plus(
        unit,
        times(unit, sin(unit, radian), direction.x),
        times(unit, direction.y, cos(unit, radian)),
    );

    let delay = times(
        unit,
        times(unit, next.delay, delta_time_seconds),
        Scalar::from_bits(THIRTY_BITS),
    );
    let velocity = CubismVector2 {
        x: times(unit, next.velocity.x, delay),
        y: times(unit, next.velocity.y, delay),
    };

    let force = current_gravity.mul(unit, next.acceleration).add(unit, wind_direction).mul(
        unit,
        delay,
    ).mul(unit, delay);
    let new_direction = direction.add(unit, velocity).add(unit, force).normalize(unit);
    next.position = previous_position.add(unit, new_direction.mul(unit, next.radius));

    if next.position.x.abs().lt(threshold_value) {
        next.position.x = zero;
    }

    if !delay.eq_value(zero) {
        next.velocity = next.position.sub(unit, next.last_position).div(unit, delay).mul(
            unit,
            next.mobility,
        );
    }

    next.force = CubismVector2::default();
    next.last_gravity = current_gravity;
    next
}

/// The particles after the root of the chain at `base` has been moved to
/// `total_translation` and the `n` particles after it have been stepped,
/// each from where the one before it has come to stand.
pub open spec fn chain_after_of<A: Fn(Op, Scalar, Scalar) -> Scalar>(
    unit: &A,
    particles: Seq<CubismPhysicsParticle>,
    base: int,
    n: int,
    total_translation: CubismVector2,
    current_gravity: CubismVector2,
    wind_direction: CubismVector2,
    threshold_value: Scalar,
    delta_time_seconds: Scalar,
    air_resistance: Scalar,
) -> Seq<CubismPhysicsParticle>
    decreases n,
{
    if n <= 0 {
        particles.update(
            base,
            CubismPhysicsParticle { position: total_translation, ..particles[base] },
        )
    } else {
        let before = chain_after_of(
            unit,
            particles,
            base,
            n - 1,
            total_translation,
            current_gravity,
            wind_direction,
            threshold_value,
            delta_time_seconds,
            air_resistance,
        );
        before.update(
            base + n,
            stepped_particle(
                unit,
                before[base + n - 1].position,
                particles[base + n],
                current_gravity,
                wind_direction,
                threshold_value,
                delta_time_seconds,
                air_resistance,
            ),
        )
    }
}

/// The particles after one step of the chain of `strand_count` particles
/// that starts at `base`, for a chain that is moved to `total_translation`
/// and turned by `total_angle` degrees.
pub open spec fn update_particles_of<A: Fn(Op, Scalar, Scalar) -> Scalar>(
    unit: &A,
    particles: Seq<CubismPhysicsParticle>,
    base: int,
    strand_count: int,
    total_translation: CubismVector2,
    total_angle: Scalar,
    wind_direction: CubismVector2,
    threshold_value: Scalar,
    delta_time_seconds: Scalar,
    air_resistance: Scalar,
) -> Seq<CubismPhysicsParticle> {
    chain_after_of(
        unit,
        particles,
        base,
        strand_count - 1,
        total_translation,
        gravity_direction_of(unit, total_angle),
        wind_direction,
        threshold_value,
        delta_time_seconds,
        air_resistance,
    )
}

/// A step of a chain leaves the length of the list and every particle
/// outside the chain as they were, and changes nothing of the root but its
/// position, which becomes the translation handed in.
pub proof fn lemma_chain_after_frame<A: Fn(Op, Scalar, Scalar) -> Scalar>(
    unit: &A,
    particles: Seq<CubismPhysicsParticle>,
    base: int,
    n: int,
    total_translation: CubismVector2,
    current_gravity: CubismVector2,
    wind_direction: CubismVector2,
    threshold_value: Scalar,
    delta_time_seconds: Scalar,
    air_resistance: Scalar,
)
    requires
        0 <= base,
        0 <= n,
        base + n < particles.len(),
    ensures
        ({
            let after = chain_after_of(
                unit,
                particles,
                base,
                n,
                total_translation,
                current_gravity,
                wind_direction,
                threshold_value,
                delta_time_seconds,
                air_resistance,
            );
            &&& after.len() == particles.len()
            &&& forall|i: int|
                0 <= i < particles.len() && (i < base || base + n < i) ==> after[i] == particles[i]
            &&& after[base] == CubismPhysicsParticle {
                position: total_translation,
                ..particles[base]
            }
            &&& forall|i: int|
                base < i <= base + n ==> {
                    &&& (#[trigger] after[i]).initial_position == particles[i].initial_position
                    &&& after[i].mobility == particles[i].mobility
                    &&& after[i].delay == particles[i].delay
                    &&& after[i].acceleration == particles[i].acceleration
                    &&& after[i].radius == particles[i].radius
                    &&& after[i].last_position == particles[i].position
                    &&& after[i].last_gravity == current_gravity
                    &&& after[i].force == CubismVector2::zero()
                }
        }),
    decreases n,
{
    if n > 0 {
        lemma_chain_after_frame(
            unit,
            particles,
            base,
            n - 1,
            total_translation,
            current_gravity,
            wind_direction,
            threshold_value,
            delta_time_seconds,
            air_resistance,
        );
    }
}

/// After a step of a chain each particle behind the root is the particle
/// that it was, stepped from where the particle before it has come to
/// stand.
pub proof fn lemma_chain_after_steps<A: Fn(Op, Scalar, Scalar) -> Scalar>(
    unit: &A,
    particles: Seq<CubismPhysicsParticle>,
    base: int,
    n: int,
    total_translation: CubismVector2,
    current_gravity: CubismVector2,
    wind_direction: CubismVector2,
    threshold_value: Scalar,
    delta_time_seconds: Scalar,
    air_resistance: Scalar,
    i: int,
)
    requires
        0 <= base,
        1 <= i <= n,
        base + n < particles.len(),
    ensures
        ({
            let after = chain_after_of(
                unit,
                particles,
                base,
                n,
                total_translation,
                current_gravity,
                wind_direction,
                threshold_value,
                delta_time_seconds,
                air_resistance,
            );
            &&& after[base].position == total_translation
            &&& after[base + i] == stepped_particle(
                unit,
                after[base + i - 1].position,
                particles[base + i],
                current_gravity,
                wind_direction,
                threshold_value,
                delta_time_seconds,
                air_resistance,
            )
        }),
    decreases n,
{
    lemma_chain_after_frame(
        unit,
        particles,
        base,
        n - 1,
        total_translation,
        current_gravity,
        wind_direction,
        threshold_value,
        delta_time_seconds,
        air_resistance,
    );
    if i < n {
        lemma_chain_after_steps(
            unit,
            particles,
            base,
            n - 1,
            total_translation,
            current_gravity,
            wind_direction,
            threshold_value,
            delta_time_seconds,
            air_resistance,
            i,
        );
    }
}

/// Steps the chain of `strand_count` particles that starts at `base` in
/// `strand`: the root goes to `total_translation`, and each particle after
/// it is stepped from where the one before it has come to stand.
pub fn update_particles<A: Fn(Op, Scalar, Scalar) -> Scalar>(
    unit: &A,
    strand: &mut Vec<CubismPhysicsParticle>,
    base: usize,
    strand_count: usize,
    total_translation: CubismVector2,
    total_angle: Scalar,
    wind_direction: CubismVector2,
    threshold_value: Scalar,
    delta_time_seconds: Scalar,
    air_resistance: Scalar,
)
    requires
        well_behaved(*unit),
        1 <= strand_count,
        base + strand_count <= old(strand)@.len(),
    ensures
        final(strand)@ == update_particles_of(
            unit,
            old(strand)@,
            base as int,
            strand_count as int,
            total_translation,
            total_angle,
            wind_direction,
            threshold_value,
            delta_time_seconds,
            air_resistance,
        ),
        final(strand)@.len() == old(strand)@.len(),
        final(strand)@[base as int] == (CubismPhysicsParticle {
            position: total_translation,
            ..old(strand)@[base as int]
        }),
        forall|i: int|
            base < i < base + strand_count ==> (#[trigger] final(strand)@[i]) == stepped_particle(
                unit,
                final(strand)@[i - 1].position,
                old(strand)@[i],
                gravity_direction_of(unit, total_angle),
                wind_direction,
                threshold_value,
                delta_time_seconds,
                air_resistance,
            ),
        forall|i: int|
            0 <= i < old(strand)@.len() && (i < base || base + strand_count <= i) ==> (
            #[trigger] final(strand)@[i]) == old(strand)@[i],
{
    let ghost before = strand@;
    let length = strand.len();
    strand[base].position = total_translation;
    let total_radian = to_radians(unit, total_angle);
    let current_gravity = to_direction(unit, total_radian).normalize(unit);

    let mut i: usize = 1;
    while i < strand_count
        invariant
            well_behaved(*unit),
            1 <= i <= strand_count,
            length == before.len(),
            base + strand_count <= length,
            strand@.len() == length,
            strand@ == chain_after_of(
                unit,
                before,
                base as int,
                i - 1,
                total_translation,
                current_gravity,
                wind_direction,
                threshold_value,
                delta_time_seconds,
                air_resistance,
            ),
        decreases strand_count - i,
    {
        proof {
            lemma_chain_after_frame(
                unit,
                before,
                base as int,
                i - 1,
                total_translation,
                current_gravity,
                wind_direction,
                threshold_value,
                delta_time_seconds,
                air_resistance,
            );
        }
        let own = base + i;
        let next = stepped_particle(
            unit,
            strand[own - 1].position,
            strand[own],
            current_gravity,
            wind_direction,
            threshold_value,
            delta_time_seconds,
            air_resistance,
        );
        strand[own] = next;
        i += 1;
    }
    proof {
        lemma_chain_after_frame(
            unit,
            before,
            base as int,
            strand_count - 1,
            total_translation,
            current_gravity,
            wind_direction,
            threshold_value,
            delta_time_seconds,
            air_resistance,
        );
        assert forall|i: int| base < i < base + strand_count implies (#[trigger] strand@[i])
            == stepped_particle(
            unit,
            strand@[i - 1].position,
            before[i],
            current_gravity,
            wind_direction,
            threshold_value,
            delta_time_seconds,
            air_resistance,
        ) by {
            lemma_chain_after_steps(
                unit,
                before,
                base as int,
                strand_count - 1,
                total_translation,
                current_gravity,
                wind_direction,
                threshold_value,
                delta_time_seconds,
                air_resistance,
                i - base,
            );
        }
    }
}

/// The chain that `update_particles` would leave, as a new list: the first
/// `strand_count` particles of `strand` after one step, followed by the
/// particles after them as they are.
pub fn update_particles2<A: Fn(Op, Scalar, Scalar) -> Scalar>(
    unit: &A,
    strand: &Vec<CubismPhysicsParticle>,
    strand_count: usize,
    total_translation: CubismVector2,
    total_angle: Scalar,
    wind_direction: CubismVector2,
    threshold_value: Scalar,
    delta_time_seconds: Scalar,
    air_resistance: Scalar,
) -> (ret: Vec<CubismPhysicsParticle>)
    requires
        well_behaved(*unit),
        1 <= strand_count <= strand@.len(),
    ensures
        ret@ == update_particles_of(
            unit,
            strand@,
            0,
            strand_count as int,
            total_translation,
            total_angle,
            wind_direction,
            threshold_value,
            delta_time_seconds,
            air_resistance,
        ),
        ret@.len() == strand@.len(),
{
    let mut ret: Vec<CubismPhysicsParticle> = Vec::new();
    let n = strand.len();
    let mut i: usize = 0;
    while i < n
        invariant
            n == strand@.len(),
            i <= n,
            ret@ == strand@.subrange(0, i as int),
        decreases n - i,
    {
        ret.push(strand[i]);
        proof {
            assert(ret@ =~= strand@.subrange(0, i + 1));
        }
        i += 1;
    }
    proof {
        assert(ret@ =~= strand@);
    }
    update_particles(
        unit,
        &mut ret,
        0,
        strand_count,
        total_translation,
        total_angle,
        wind_direction,
        threshold_value,
        delta_time_seconds,
        air_resistance,
    );
    ret
}

} // verus!
