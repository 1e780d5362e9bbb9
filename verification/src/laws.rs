//! What holds of the phases of a tick on every scene.

use vstd::prelude::*;
use crate::body::{
    lemma_respond_at_rest, lemma_respond_scales, lemma_respond_within, BodyView, Collider,
    COORD_LIMIT,
};
use crate::collision::{lemma_resolve_scales, overlapping, resolve, CollisionView};
use crate::input::PaddleInput;
use crate::phases::{
    after_collisions, after_motion, after_motions, after_steering, after_tick, after_ticks, clear,
    collisions, collisions_among, collisions_of, encounter, in_range, measured_finer,
    representable, scaled, sole_ball, sole_paddle, starting_bodies, velocity_after, well_formed,
    within_bounds,
};
use crate::vector::{lemma_unit_product, Vector};

verus! {

/// The starting scene is well formed and in range.
pub proof fn lemma_starting_bodies()
    ensures
        well_formed(starting_bodies()),
        in_range(starting_bodies()),
{
    let bodies = starting_bodies();
    assert(sole_ball(bodies, 0));
    assert(sole_paddle(bodies, 1));
}

/// A tick changes positions and velocities only: the number of bodies,
/// and the size, collider and role of each, stay as they are. A well-formed
/// scene stays well formed.
pub proof fn lemma_tick_keeps_shape(bodies: Seq<BodyView>, input: PaddleInput)
    ensures
        after_tick(bodies, input).len() == bodies.len(),
        forall|i: int|
            0 <= i < bodies.len() ==> {
                &&& (#[trigger] after_tick(bodies, input)[i]).half_extent == bodies[i].half_extent
                &&& after_tick(bodies, input)[i].collider == bodies[i].collider
                &&& after_tick(bodies, input)[i].role == bodies[i].role
            },
        well_formed(bodies) ==> well_formed(after_tick(bodies, input)),
{
    let ticked = after_tick(bodies, input);
    assert forall|i: int| 0 <= i < bodies.len() implies {
        &&& (#[trigger] ticked[i]).half_extent == bodies[i].half_extent
        &&& ticked[i].collider == bodies[i].collider
        &&& ticked[i].role == bodies[i].role
    } by {}
    if well_formed(bodies) {
        let paddle = choose|i: int| sole_paddle(bodies, i);
        let ball = choose|i: int| sole_ball(bodies, i);
        assert(sole_paddle(ticked, paddle)) by {
            assert forall|j: int|
                0 <= j < ticked.len() && (#[trigger] ticked[j]).is_paddle() implies j == paddle by {
                assert(bodies[j].is_paddle());
            }
        }
        assert(sole_ball(ticked, ball)) by {
            assert forall|j: int|
                0 <= j < ticked.len() && (#[trigger] ticked[j]).is_ball() implies j == ball by {
                assert(bodies[j].is_ball());
            }
        }
        assert forall|i: int| 0 <= i < ticked.len() implies {
            &&& (#[trigger] ticked[i]).half_extent.x > 0
            &&& ticked[i].half_extent.y > 0
        } by {
            assert(bodies[i].half_extent.x > 0);
        }
    }
}

/// Any number of ticks change positions and velocities only, and keep a
/// well-formed scene well formed.
pub proof fn lemma_ticks_keep_shape(bodies: Seq<BodyView>, inputs: Seq<PaddleInput>)
    ensures
        after_ticks(bodies, inputs).len() == bodies.len(),
        forall|i: int|
            0 <= i < bodies.len() ==> {
                &&& (#[trigger] after_ticks(bodies, inputs)[i]).half_extent
                    == bodies[i].half_extent
                &&& after_ticks(bodies, inputs)[i].collider == bodies[i].collider
                &&& after_ticks(bodies, inputs)[i].role == bodies[i].role
            },
        well_formed(bodies) ==> well_formed(after_ticks(bodies, inputs)),
    decreases inputs.len(),
{
    if inputs.len() > 0 {
        lemma_ticks_keep_shape(bodies, inputs.drop_last());
        lemma_tick_keeps_shape(after_ticks(bodies, inputs.drop_last()), inputs.last());
    }
}

/// A velocity that was within a symmetric range stays within it through
/// any number of collisions.
pub proof fn lemma_velocity_after_within(
    bodies: Seq<BodyView>,
    source: int,
    tested: nat,
    limit: int,
)
    requires
        0 <= source < bodies.len(),
        bodies[source].velocity.within(limit),
    ensures
        velocity_after(bodies, source, tested).within(limit),
    decreases tested,
{
    if tested > 0 {
        lemma_velocity_after_within(bodies, source, (tested - 1) as nat, limit);
        let before = velocity_after(bodies, source, (tested - 1) as nat);
        match encounter(bodies, source, tested - 1, before) {
            Some(collision) => {
                lemma_respond_within(bodies[source].collider, before, collision, limit);
            },
            None => {},
        }
    }
}

/// Collision response keeps a scene in range.
pub proof fn lemma_collisions_fit(bodies: Seq<BodyView>)
    requires
        in_range(bodies),
    ensures
        in_range(after_collisions(bodies)),
{
    let collided = after_collisions(bodies);
    assert forall|i: int| 0 <= i < collided.len() implies (#[trigger] collided[i]).in_range() by {
        assert(bodies[i].in_range());
        lemma_velocity_after_within(bodies, i, bodies.len(), COORD_LIMIT as int);
    }
}

/// Steering keeps a scene in range, so the steered scene fits in `i64`
/// coordinates.
pub proof fn lemma_steering_fits(bodies: Seq<BodyView>, input: PaddleInput)
    requires
        in_range(bodies),
    ensures
        in_range(after_steering(bodies, input)),
        representable(after_steering(bodies, input)),
{
    let steered_scene = after_steering(bodies, input);
    let limit = COORD_LIMIT as int;
    assert forall|i: int| 0 <= i < steered_scene.len() implies {
        &&& (#[trigger] steered_scene[i]).in_range()
        &&& steered_scene[i].representable()
    } by {
        assert(bodies[i].in_range());
        lemma_unit_product(bodies[i].paddle_speed(), input.spec_direction(), limit);
    }
}

/// A scene in range still fits in `i64` coordinates after motion.
pub proof fn lemma_motion_fits(bodies: Seq<BodyView>)
    requires
        in_range(bodies),
    ensures
        representable(after_motion(bodies)),
{
    let moved = after_motion(bodies);
    assert forall|i: int| 0 <= i < moved.len() implies (#[trigger] moved[i]).representable() by {
        assert(bodies[i].in_range());
    }
}

/// A tick never makes a body faster than the fastest body or the paddle's
/// speed, and moves no body farther than that speed.
pub proof fn lemma_tick_drift(bodies: Seq<BodyView>, input: PaddleInput, reach: int, speed: int)
    requires
        within_bounds(bodies, reach, speed),
    ensures
        within_bounds(after_tick(bodies, input), reach + speed, speed),
{
    let collided = after_collisions(bodies);
    let steered_scene = after_steering(collided, input);
    let ticked = after_tick(bodies, input);
    assert forall|i: int| 0 <= i < ticked.len() implies {
        &&& (#[trigger] ticked[i]).position.within(reach + speed)
        &&& ticked[i].velocity.within(speed)
        &&& -speed <= ticked[i].paddle_speed() <= speed
    } by {
        assert(bodies[i].position.within(reach));
        lemma_velocity_after_within(bodies, i, bodies.len(), speed);
        lemma_unit_product(collided[i].paddle_speed(), input.spec_direction(), speed);
        assert(steered_scene[i].velocity.within(speed));
    }
}

/// Through any number of ticks no body gets faster than the fastest body or
/// the paddle's speed, and no body gets farther than that speed takes it in
/// that many ticks.
pub proof fn lemma_ticks_drift(
    bodies: Seq<BodyView>,
    inputs: Seq<PaddleInput>,
    reach: int,
    speed: int,
)
    requires
        within_bounds(bodies, reach, speed),
    ensures
        within_bounds(after_ticks(bodies, inputs), reach + inputs.len() * speed, speed),
    decreases inputs.len(),
{
    if inputs.len() > 0 {
        let earlier = inputs.drop_last();
        lemma_ticks_drift(bodies, earlier, reach, speed);
        lemma_tick_drift(
            after_ticks(bodies, earlier),
            inputs.last(),
            reach + earlier.len() * speed,
            speed,
        );
        assert(reach + earlier.len() * speed + speed == reach + inputs.len() * speed)
            by (nonlinear_arith)
            requires
                earlier.len() + 1 == inputs.len(),
        ;
    }
}

/// A scene in range stays in range for as many ticks as its fastest body,
/// or its paddle, needs to take the farthest body to the limit.
pub proof fn lemma_stays_in_range(
    bodies: Seq<BodyView>,
    inputs: Seq<PaddleInput>,
    reach: int,
    speed: int,
)
    requires
        in_range(bodies),
        within_bounds(bodies, reach, speed),
        speed <= COORD_LIMIT,
        reach + inputs.len() * speed <= COORD_LIMIT,
    ensures
        in_range(after_ticks(bodies, inputs)),
{
    lemma_ticks_drift(bodies, inputs, reach, speed);
    lemma_ticks_keep_shape(bodies, inputs);
    let ticked = after_ticks(bodies, inputs);
    assert forall|i: int| 0 <= i < ticked.len() implies (#[trigger] ticked[i]).in_range() by {
        assert(bodies[i].in_range());
        assert(ticked[i].position.within(reach + inputs.len() * speed));
    }
}

/// In a clear scene body `source` registers nothing and keeps its
/// velocity.
proof fn lemma_clear_source(bodies: Seq<BodyView>, source: int, tested: nat)
    requires
        clear(bodies),
        0 <= source < bodies.len(),
        tested <= bodies.len(),
    ensures
        velocity_after(bodies, source, tested) == bodies[source].velocity,
        collisions_of(bodies, source, tested) == Seq::<CollisionView>::empty(),
    decreases tested,
{
    if tested > 0 {
        lemma_clear_source(bodies, source, (tested - 1) as nat);
        if source != tested - 1 {
            assert(!overlapping(
                bodies[source].predicted_aabb(bodies[source].velocity),
                bodies[tested - 1].aabb(),
            ));
        }
    }
}

/// In a clear scene the first `sources` bodies register nothing.
proof fn lemma_clear_sources(bodies: Seq<BodyView>, sources: nat)
    requires
        clear(bodies),
        sources <= bodies.len(),
    ensures
        collisions_among(bodies, sources) == Seq::<CollisionView>::empty(),
    decreases sources,
{
    if sources > 0 {
        lemma_clear_sources(bodies, (sources - 1) as nat);
        lemma_clear_source(bodies, sources - 1, bodies.len());
    }
}

/// Collision response leaves a clear scene as it is and finds no
/// collision.
pub proof fn lemma_clear_scene_is_untouched(bodies: Seq<BodyView>)
    requires
        clear(bodies),
    ensures
        after_collisions(bodies) == bodies,
        collisions(bodies) == Seq::<CollisionView>::empty(),
{
    lemma_clear_sources(bodies, bodies.len());
    assert forall|i: int| 0 <= i < bodies.len() implies after_collisions(bodies)[i]
        == bodies[i] by {
        lemma_clear_source(bodies, i, bodies.len());
    }
}

/// A static body that registers a collision is at rest when collision
/// response ends.
pub proof fn lemma_static_body_stops(bodies: Seq<BodyView>, source: int, tested: nat)
    requires
        0 <= source < bodies.len(),
        bodies[source].collider == Collider::Static,
        collisions_of(bodies, source, tested).len() > 0,
    ensures
        velocity_after(bodies, source, tested) == Vector::zero(),
    decreases tested,
{
    if tested > 0 {
        let before = velocity_after(bodies, source, (tested - 1) as nat);
        if encounter(bodies, source, tested - 1, before) is None {
            lemma_static_body_stops(bodies, source, (tested - 1) as nat);
        }
    }
}

/// A bouncing body leaves collision response with the speed that it had on
/// each axis, whatever it ran into.
pub proof fn lemma_bouncing_body_keeps_speed(bodies: Seq<BodyView>, source: int, tested: nat)
    requires
        0 <= source < bodies.len(),
        bodies[source].collider == Collider::Bounce,
    ensures
        velocity_after(bodies, source, tested).abs() == bodies[source].velocity.abs(),
    decreases tested,
{
    if tested > 0 {
        lemma_bouncing_body_keeps_speed(bodies, source, (tested - 1) as nat);
    }
}

/// A body at rest is still at rest after collision response.
pub proof fn lemma_rest_survives_collisions(bodies: Seq<BodyView>, source: int, tested: nat)
    requires
        0 <= source < bodies.len(),
        bodies[source].velocity == Vector::zero(),
    ensures
        velocity_after(bodies, source, tested) == Vector::zero(),
    decreases tested,
{
    if tested > 0 {
        lemma_rest_survives_collisions(bodies, source, (tested - 1) as nat);
        match encounter(bodies, source, tested - 1, Vector::zero()) {
            Some(collision) => {
                lemma_respond_at_rest(bodies[source].collider, collision);
            },
            None => {},
        }
    }
}

/// Motion never moves a body whose velocity is zero, however many rounds
/// of it are run.
pub proof fn lemma_body_at_rest_stays(bodies: Seq<BodyView>, i: int, ticks: nat)
    requires
        0 <= i < bodies.len(),
        bodies[i].velocity == Vector::zero(),
    ensures
        after_motions(bodies, ticks).len() == bodies.len(),
        after_motions(bodies, ticks)[i] == bodies[i],
    decreases ticks,
{
    if ticks > 0 {
        lemma_body_at_rest_stays(bodies, i, (ticks - 1) as nat);
    }
}

/// A body at rest that is not the paddle stays where it is, at rest,
/// through any number of whole ticks, whatever the other bodies do and
/// whatever the player asks for.
pub proof fn lemma_obstacle_at_rest_stays(
    bodies: Seq<BodyView>,
    i: int,
    inputs: Seq<PaddleInput>,
)
    requires
        0 <= i < bodies.len(),
        bodies[i].velocity == Vector::zero(),
        !bodies[i].is_paddle(),
    ensures
        after_ticks(bodies, inputs).len() == bodies.len(),
        after_ticks(bodies, inputs)[i] == bodies[i],
    decreases inputs.len(),
{
    if inputs.len() > 0 {
        lemma_obstacle_at_rest_stays(bodies, i, inputs.drop_last());
        let earlier = after_ticks(bodies, inputs.drop_last());
        lemma_rest_survives_collisions(earlier, i, earlier.len());
    }
}

/// In a unit `factor` times finer a body is left by its collisions with
/// the same velocity, in the finer unit, and registers the same collisions,
/// in the finer unit.
proof fn lemma_source_scales(
    bodies: Seq<BodyView>,
    finer: Seq<BodyView>,
    factor: int,
    source: int,
    tested: nat,
)
    requires
        factor > 0,
        measured_finer(bodies, finer, factor),
        0 <= source < bodies.len(),
        tested <= bodies.len(),
    ensures
        velocity_after(finer, source, tested) == velocity_after(bodies, source, tested).scaled(
            factor,
        ),
        collisions_of(finer, source, tested) == scaled(
            collisions_of(bodies, source, tested),
            factor,
        ),
    decreases tested,
{
    if tested > 0 {
        let target = tested - 1;
        lemma_source_scales(bodies, finer, factor, source, target as nat);
        let before = velocity_after(bodies, source, target as nat);
        let earlier = collisions_of(bodies, source, target as nat);
        assert(bodies[source].measured_finer(finer[source], factor));
        assert(bodies[target].measured_finer(finer[target], factor));
        if source != target {
            let coarse = bodies[source].predicted_aabb(before);
            assert((bodies[source].position.x + before.x) * factor == bodies[source].position.x
                * factor + before.x * factor) by (nonlinear_arith);
            assert((bodies[source].position.y + before.y) * factor == bodies[source].position.y
                * factor + before.y * factor) by (nonlinear_arith);
            assert(finer[source].predicted_aabb(before.scaled(factor)) == coarse.scaled(factor));
            assert(finer[target].aabb() == bodies[target].aabb().scaled(factor));
            lemma_resolve_scales(coarse, bodies[target].aabb(), factor);
            match resolve(coarse, bodies[target].aabb()) {
                Some(collision) => {
                    lemma_respond_scales(bodies[source].collider, before, collision, factor);
                    assert(scaled(earlier, factor).push(collision.scaled(factor)) == scaled(
                        earlier.push(collision),
                        factor,
                    ));
                },
                None => {},
            }
        }
    }
}

/// In a unit `factor` times finer the first `sources` bodies register the
/// same collisions, in the finer unit.
proof fn lemma_sources_scale(
    bodies: Seq<BodyView>,
    finer: Seq<BodyView>,
    factor: int,
    sources: nat,
)
    requires
        factor > 0,
        measured_finer(bodies, finer, factor),
        sources <= bodies.len(),
    ensures
        collisions_among(finer, sources) == scaled(collisions_among(bodies, sources), factor),
    decreases sources,
{
    if sources > 0 {
        lemma_sources_scale(bodies, finer, factor, (sources - 1) as nat);
        lemma_source_scales(bodies, finer, factor, sources - 1, bodies.len());
        let earlier = collisions_among(bodies, (sources - 1) as nat);
        let last = collisions_of(bodies, sources - 1, bodies.len());
        assert(scaled(earlier, factor) + scaled(last, factor) == scaled(earlier + last, factor));
    }
}

/// A scene and the same scene in a finer unit have the same paddle.
proof fn lemma_same_paddle(bodies: Seq<BodyView>, finer: Seq<BodyView>, factor: int, i: int)
    requires
        measured_finer(bodies, finer, factor),
    ensures
        sole_paddle(bodies, i) == sole_paddle(finer, i),
{
    if sole_paddle(bodies, i) {
        assert(bodies[i].measured_finer(finer[i], factor));
        assert forall|j: int| 0 <= j < finer.len() && (#[trigger] finer[j]).is_paddle() implies j
            == i by {
            assert(bodies[j].measured_finer(finer[j], factor));
        }
    }
    if sole_paddle(finer, i) {
        assert(bodies[i].measured_finer(finer[i], factor));
        assert forall|j: int| 0 <= j < bodies.len() && (#[trigger] bodies[j]).is_paddle() implies j
            == i by {
            assert(bodies[j].measured_finer(finer[j], factor));
        }
    }
}

/// A tick does not depend on the unit of length: a scene measured in a unit
/// `factor` times finer ticks to the scene that the coarser one ticks to,
/// measured in the finer unit, and registers the same collisions, measured
/// in the finer unit.
pub proof fn lemma_tick_scales(
    bodies: Seq<BodyView>,
    finer: Seq<BodyView>,
    factor: int,
    input: PaddleInput,
)
    requires
        factor > 0,
        measured_finer(bodies, finer, factor),
    ensures
        measured_finer(after_tick(bodies, input), after_tick(finer, input), factor),
        collisions(finer) == scaled(collisions(bodies), factor),
{
    lemma_sources_scale(bodies, finer, factor, bodies.len());
    let collided = after_collisions(bodies);
    let finer_collided = after_collisions(finer);
    assert forall|i: int| 0 <= i < bodies.len() implies (#[trigger] collided[i]).measured_finer(
        finer_collided[i],
        factor,
    ) by {
        assert(bodies[i].measured_finer(finer[i], factor));
        lemma_source_scales(bodies, finer, factor, i, bodies.len());
    }
    let steered_scene = after_steering(collided, input);
    let finer_steered = after_steering(finer_collided, input);
    assert forall|i: int| 0 <= i < bodies.len() implies sole_paddle(collided, i) == sole_paddle(
        finer_collided,
        i,
    ) by {
        lemma_same_paddle(collided, finer_collided, factor, i);
    }
    assert forall|i: int| 0 <= i < bodies.len() implies (#[trigger] steered_scene[i]).measured_finer(
        finer_steered[i],
        factor,
    ) by {
        assert(collided[i].measured_finer(finer_collided[i], factor));
        assert(sole_paddle(collided, i) == sole_paddle(finer_collided, i));
        assert(collided[i].paddle_speed() * factor * input.spec_direction()
            == collided[i].paddle_speed() * input.spec_direction() * factor) by (nonlinear_arith);
    }
    let moved = after_motion(steered_scene);
    let finer_moved = after_motion(finer_steered);
    assert forall|i: int| 0 <= i < bodies.len() implies (#[trigger] moved[i]).measured_finer(
        finer_moved[i],
        factor,
    ) by {
        let coarse = steered_scene[i];
        assert(coarse.measured_finer(finer_steered[i], factor));
        assert((coarse.position.x + coarse.velocity.x) * factor == coarse.position.x * factor
            + coarse.velocity.x * factor) by (nonlinear_arith);
        assert((coarse.position.y + coarse.velocity.y) * factor == coarse.position.y * factor
            + coarse.velocity.y * factor) by (nonlinear_arith);
    }
}

} // verus!
