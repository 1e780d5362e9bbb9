//! The phases of a tick as functions on the model of a scene: collision
//! response, steering of the paddle, and motion.

use vstd::prelude::*;
use crate::body::{respond, wall, BodyView, Collider, Role};
use crate::collision::{overlapping, resolve, CollisionView};
use crate::input::PaddleInput;
use crate::vector::Vector;

verus! {

/// Every body of the scene is in range.
pub open spec fn in_range(bodies: Seq<BodyView>) -> bool {
    forall|i: int| 0 <= i < bodies.len() ==> (#[trigger] bodies[i]).in_range()
}

/// Every body of the scene fits in `i64` coordinates.
pub open spec fn representable(bodies: Seq<BodyView>) -> bool {
    forall|i: int| 0 <= i < bodies.len() ==> (#[trigger] bodies[i]).representable()
}

/// Body `i` is the paddle and no other body is.
pub open spec fn sole_paddle(bodies: Seq<BodyView>, i: int) -> bool {
    &&& 0 <= i < bodies.len()
    &&& bodies[i].is_paddle()
    &&& forall|j: int| 0 <= j < bodies.len() && (#[trigger] bodies[j]).is_paddle() ==> j == i
}

/// Body `i` is the ball and no other body is.
pub open spec fn sole_ball(bodies: Seq<BodyView>, i: int) -> bool {
    &&& 0 <= i < bodies.len()
    &&& bodies[i].is_ball()
    &&& forall|j: int| 0 <= j < bodies.len() && (#[trigger] bodies[j]).is_ball() ==> j == i
}

/// The scene is one that the game is played on: every body has a positive
/// width and height, and there is exactly one paddle and exactly one ball.
pub open spec fn well_formed(bodies: Seq<BodyView>) -> bool {
    &&& forall|i: int|
        0 <= i < bodies.len() ==> {
            &&& (#[trigger] bodies[i]).half_extent.x > 0
            &&& bodies[i].half_extent.y > 0
        }
    &&& exists|i: int| sole_paddle(bodies, i)
    &&& exists|i: int| sole_ball(bodies, i)
}

/// The collision that body `source`, about to move at `velocity`, registers
/// against body `target` where that body stands now. A body does not meet
/// itself.
pub open spec fn encounter(
    bodies: Seq<BodyView>,
    source: int,
    target: int,
    velocity: Vector,
) -> Option<CollisionView> {
    if source == target {
        None
    } else {
        resolve(bodies[source].predicted_aabb(velocity), bodies[target].aabb())
    }
}

/// The velocity of body `source` once it has been tested against the first
/// `tested` bodies of the scene, in their order. Each collision answers to
/// the velocity that the collisions before it have left.
pub open spec fn velocity_after(bodies: Seq<BodyView>, source: int, tested: nat) -> Vector
    decreases tested,
{
    if tested == 0 {
        bodies[source].velocity
    } else {
        let before = velocity_after(bodies, source, (tested - 1) as nat);
        match encounter(bodies, source, tested - 1, before) {
            Some(collision) => respond(bodies[source].collider, before, collision),
            None => before,
        }
    }
}

/// The collisions that body `source` registers against the first `tested`
/// bodies of the scene, in their order.
pub open spec fn collisions_of(
    bodies: Seq<BodyView>,
    source: int,
    tested: nat,
) -> Seq<CollisionView>
    decreases tested,
{
    if tested == 0 {
        Seq::empty()
    } else {
        let earlier = collisions_of(bodies, source, (tested - 1) as nat);
        let velocity = velocity_after(bodies, source, (tested - 1) as nat);
        match encounter(bodies, source, tested - 1, velocity) {
            Some(collision) => earlier.push(collision),
            None => earlier,
        }
    }
}

/// The collisions that the first `sources` bodies register in one tick,
/// body by body.
pub open spec fn collisions_among(bodies: Seq<BodyView>, sources: nat) -> Seq<CollisionView>
    decreases sources,
{
    if sources == 0 {
        Seq::empty()
    } else {
        collisions_among(bodies, (sources - 1) as nat) + collisions_of(
            bodies,
            sources - 1,
            bodies.len(),
        )
    }
}

/// The collisions that the bodies of the scene register in one tick: those
/// of the first body against the others in their order, then those of the
/// second, and so on.
pub open spec fn collisions(bodies: Seq<BodyView>) -> Seq<CollisionView> {
    collisions_among(bodies, bodies.len())
}

/// The scene after collision response: every body has been tested against
/// every other and has the velocity that its collisions left it.
pub open spec fn after_collisions(bodies: Seq<BodyView>) -> Seq<BodyView> {
    Seq::new(
        bodies.len(),
        |i: int| bodies[i].with_velocity(velocity_after(bodies, i, bodies.len())),
    )
}

/// The paddle after steering: its x velocity is its speed in the direction
/// asked for, its y velocity is as before.
pub open spec fn steered(paddle: BodyView, input: PaddleInput) -> BodyView {
    paddle.with_velocity(
        Vector { x: paddle.paddle_speed() * input.spec_direction(), y: paddle.velocity.y },
    )
}

/// The scene after steering: the body that is the only paddle is steered,
/// every other body is left as it is. A scene with no paddle or with
/// several is left as it is.
pub open spec fn after_steering(bodies: Seq<BodyView>, input: PaddleInput) -> Seq<BodyView> {
    Seq::new(
        bodies.len(),
        |i: int|
            if sole_paddle(bodies, i) {
                steered(bodies[i], input)
            } else {
                bodies[i]
            },
    )
}

/// The scene after motion: every body has advanced by its velocity.
pub open spec fn after_motion(bodies: Seq<BodyView>) -> Seq<BodyView> {
    Seq::new(bodies.len(), |i: int| bodies[i].moved())
}

/// The scene after one tick: collision response, then steering, then
/// motion.
pub open spec fn after_tick(bodies: Seq<BodyView>, input: PaddleInput) -> Seq<BodyView> {
    after_motion(after_steering(after_collisions(bodies), input))
}

/// The scene after `ticks` rounds of motion.
pub open spec fn after_motions(bodies: Seq<BodyView>, ticks: nat) -> Seq<BodyView>
    decreases ticks,
{
    if ticks == 0 {
        bodies
    } else {
        after_motion(after_motions(bodies, (ticks - 1) as nat))
    }
}

/// The scene after one tick for each of `inputs`, in their order.
pub open spec fn after_ticks(bodies: Seq<BodyView>, inputs: Seq<PaddleInput>) -> Seq<BodyView>
    decreases inputs.len(),
{
    if inputs.len() == 0 {
        bodies
    } else {
        after_tick(after_ticks(bodies, inputs.drop_last()), inputs.last())
    }
}

/// Every position of the scene lies within `reach`, and every velocity and
/// the paddle's speed within `speed`.
pub open spec fn within_bounds(bodies: Seq<BodyView>, reach: int, speed: int) -> bool {
    forall|i: int|
        0 <= i < bodies.len() ==> {
            &&& (#[trigger] bodies[i]).position.within(reach)
            &&& bodies[i].velocity.within(speed)
            &&& -speed <= bodies[i].paddle_speed() <= speed
        }
}

/// `finer` is the scene `bodies` measured in a unit `factor` times finer.
pub open spec fn measured_finer(bodies: Seq<BodyView>, finer: Seq<BodyView>, factor: int) -> bool {
    &&& finer.len() == bodies.len()
    &&& forall|i: int|
        0 <= i < bodies.len() ==> (#[trigger] bodies[i]).measured_finer(finer[i], factor)
}

/// A list of collisions measured in a unit `factor` times finer.
pub open spec fn scaled(log: Seq<CollisionView>, factor: int) -> Seq<CollisionView> {
    Seq::new(log.len(), |i: int| log[i].scaled(factor))
}

/// No body of the scene is about to run into another: the box that a body
/// would fill after moving overlaps the box of no other body.
pub open spec fn clear(bodies: Seq<BodyView>) -> bool {
    forall|i: int, j: int|
        0 <= i < bodies.len() && 0 <= j < bodies.len() && i != j ==> !overlapping(
            #[trigger] bodies[i].predicted_aabb(bodies[i].velocity),
            #[trigger] bodies[j].aabb(),
        )
}

/// The scene that a game starts on: the ball, the paddle, and the right,
/// left, bottom and top walls.
pub open spec fn starting_bodies() -> Seq<BodyView> {
    seq![
        BodyView {
            position: Vector { x: 0, y: 50 },
            half_extent: Vector { x: 15, y: 15 },
            velocity: Vector { x: 1, y: 1 },
            collider: Collider::Bounce,
            role: Some(Role::Ball),
        },
        BodyView {
            position: Vector { x: 0, y: 0 },
            half_extent: Vector { x: 60, y: 15 },
            velocity: Vector::zero(),
            collider: Collider::Static,
            role: Some(Role::Paddle { speed: 3 }),
        },
        wall(Vector { x: 300, y: 0 }, Vector { x: 15, y: 500 }),
        wall(Vector { x: -300, y: 0 }, Vector { x: 15, y: 500 }),
        wall(Vector { x: 0, y: -300 }, Vector { x: 500, y: 15 }),
        wall(Vector { x: 0, y: 300 }, Vector { x: 500, y: 15 }),
    ]
}

} // verus!
