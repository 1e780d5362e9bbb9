//! Bodies: the rectangles of a scene, and how one answers a collision.

use vstd::prelude::*;
use crate::collision::{Aabb, AabbView, Collision, CollisionView};
use crate::vector::{magnitude, sign, Vec2, Vector};

verus! {

/// Largest magnitude of a coordinate of a body that is in range: two to the
/// power 60. A body in range can be predicted, collided, steered and moved
/// without leaving `i64`.
pub const COORD_LIMIT: i64 = 0x1000_0000_0000_0000;

/// How a body answers a collision.
#[derive(Clone, Copy, Debug, PartialEq, Eq, Structural)]
pub enum Collider {
    /// The body stops.
    Static,
    /// The body keeps its speed and turns round on the axis that was hit.
    Bounce,
}

/// What a body is in the game, beyond an obstacle.
#[derive(Clone, Copy, Debug, PartialEq, Eq, Structural)]
pub enum Role {
    /// The body that the player steers, with the speed at which it moves.
    Paddle { speed: i64 },
    /// The ball.
    Ball,
}

/// Model of a body.
pub struct BodyView {
    pub position: Vector,
    pub half_extent: Vector,
    pub velocity: Vector,
    pub collider: Collider,
    pub role: Option<Role>,
}

impl BodyView {
    /// The box that the body fills now.
    pub open spec fn aabb(self) -> AabbView {
        AabbView { half_extent: self.half_extent, center: self.position }
    }

    /// The box that the body will fill after one tick at velocity `velocity`.
    pub open spec fn predicted_aabb(self, velocity: Vector) -> AabbView {
        AabbView { half_extent: self.half_extent, center: self.position.plus(velocity) }
    }

    /// The body with another velocity.
    pub open spec fn with_velocity(self, velocity: Vector) -> BodyView {
        BodyView { velocity, ..self }
    }

    /// The body after one tick of motion: its position advanced by its
    /// velocity.
    pub open spec fn moved(self) -> BodyView {
        BodyView { position: self.position.plus(self.velocity), ..self }
    }

    /// The body is the paddle.
    pub open spec fn is_paddle(self) -> bool {
        self.role matches Some(Role::Paddle { .. })
    }

    /// The body is the ball.
    pub open spec fn is_ball(self) -> bool {
        self.role == Some(Role::Ball)
    }

    /// The speed of a paddle; zero for any other body.
    pub open spec fn paddle_speed(self) -> int {
        match self.role {
            Some(Role::Paddle { speed }) => speed as int,
            _ => 0,
        }
    }

    /// `finer` is this body measured in a unit `factor` times finer: its
    /// position, size, velocity and paddle speed are `factor` times as
    /// large, its collider and what it is in the game are the same.
    pub open spec fn measured_finer(self, finer: BodyView, factor: int) -> bool {
        &&& finer.position == self.position.scaled(factor)
        &&& finer.half_extent == self.half_extent.scaled(factor)
        &&& finer.velocity == self.velocity.scaled(factor)
        &&& finer.collider == self.collider
        &&& finer.is_paddle() == self.is_paddle()
        &&& finer.is_ball() == self.is_ball()
        &&& finer.paddle_speed() == self.paddle_speed() * factor
    }

    /// Every coordinate of the body, and its paddle speed, lies within
    /// [`COORD_LIMIT`].
    pub open spec fn in_range(self) -> bool {
        &&& self.position.within(COORD_LIMIT as int)
        &&& self.half_extent.within(COORD_LIMIT as int)
        &&& self.velocity.within(COORD_LIMIT as int)
        &&& -COORD_LIMIT <= self.paddle_speed() <= COORD_LIMIT
    }

    /// Every vector of the body fits in `i64` coordinates.
    pub open spec fn representable(self) -> bool {
        &&& self.position.representable()
        &&& self.half_extent.representable()
        &&& self.velocity.representable()
    }
}

/// A movable or static rectangle.
#[derive(Clone, Copy, Debug, PartialEq, Eq, Structural)]
pub struct Body {
    /// Centre of the rectangle.
    pub position: Vec2,
    /// Half the width and half the height.
    pub half_extent: Vec2,
    /// Displacement per tick.
    pub velocity: Vec2,
    /// How the body answers a collision.
    pub collider: Collider,
    /// Paddle, ball, or neither.
    pub role: Option<Role>,
}

impl View for Body {
    type V = BodyView;

    open spec fn view(&self) -> BodyView {
        BodyView {
            position: self.position@,
            half_extent: self.half_extent@,
            velocity: self.velocity@,
            collider: self.collider,
            role: self.role,
        }
    }
}

/// A wall: a static body at rest that is neither paddle nor ball.
pub open spec fn wall(position: Vector, half_extent: Vector) -> BodyView {
    BodyView {
        position,
        half_extent,
        velocity: Vector::zero(),
        collider: Collider::Static,
        role: None,
    }
}

/// One component of a velocity after a bounce: turned round where the
/// normal's component is `-1`, kept otherwise.
pub open spec fn reflect(speed: int, normal: int) -> int {
    if normal == -1 {
        -speed
    } else {
        speed
    }
}

/// The velocity of a body that moved at `velocity` and registered
/// `collision`. A static body stops; a bouncing body has each component
/// reflected by the matching component of the normal.
pub open spec fn respond(collider: Collider, velocity: Vector, collision: CollisionView) -> Vector {
    match collider {
        Collider::Static => Vector::zero(),
        Collider::Bounce => Vector {
            x: reflect(velocity.x, collision.normal.x),
            y: reflect(velocity.y, collision.normal.y),
        },
    }
}

/// A static body stops on any collision, whatever its velocity and whatever
/// the normal.
pub proof fn lemma_static_response_stops(velocity: Vector, collision: CollisionView)
    ensures
        respond(Collider::Static, velocity, collision) == Vector::zero(),
{
}

/// A bounce keeps the magnitude of both components of the velocity.
pub proof fn lemma_bounce_keeps_magnitude(velocity: Vector, collision: CollisionView)
    ensures
        respond(Collider::Bounce, velocity, collision).abs() == velocity.abs(),
{
}

/// A bounce leaves untouched the component of the velocity on which the
/// normal is zero: a collision along x does not change the y velocity, and
/// the other way round.
pub proof fn lemma_bounce_keeps_other_axis(velocity: Vector, collision: CollisionView)
    ensures
        collision.normal.y == 0 ==> respond(Collider::Bounce, velocity, collision).y == velocity.y,
        collision.normal.x == 0 ==> respond(Collider::Bounce, velocity, collision).x == velocity.x,
{
}

/// A normal component of `1` keeps the matching component of the velocity, a
/// normal component of `-1` turns it round.
pub proof fn lemma_bounce_by_normal(velocity: Vector, collision: CollisionView)
    ensures
        collision.normal.x == 1 ==> respond(Collider::Bounce, velocity, collision).x == velocity.x,
        collision.normal.x == -1 ==> respond(Collider::Bounce, velocity, collision).x
            == -velocity.x,
        collision.normal.y == 1 ==> respond(Collider::Bounce, velocity, collision).y == velocity.y,
        collision.normal.y == -1 ==> respond(Collider::Bounce, velocity, collision).y
            == -velocity.y,
{
}

/// After a bounce off a collision along x, a body that moved in the positive
/// x direction moves in the direction of the normal.
pub proof fn lemma_bounce_follows_normal(velocity: Vector, collision: CollisionView)
    requires
        collision.normal.x == 1 || collision.normal.x == -1,
        velocity.x > 0,
    ensures
        sign(respond(Collider::Bounce, velocity, collision).x) == collision.normal.x,
{
}

/// Responses do not depend on the unit of length: a velocity measured in a
/// unit `factor` times finer leaves a collision as the velocity did, in the
/// finer unit.
pub proof fn lemma_respond_scales(
    collider: Collider,
    velocity: Vector,
    collision: CollisionView,
    factor: int,
)
    ensures
        respond(collider, velocity.scaled(factor), collision.scaled(factor)) == respond(
            collider,
            velocity,
            collision,
        ).scaled(factor),
{
    assert((-velocity.x) * factor == -(velocity.x * factor)) by (nonlinear_arith);
    assert((-velocity.y) * factor == -(velocity.y * factor)) by (nonlinear_arith);
    assert(0 * factor == 0) by (nonlinear_arith);
}

/// A response never takes a velocity out of a symmetric range.
pub proof fn lemma_respond_within(
    collider: Collider,
    velocity: Vector,
    collision: CollisionView,
    limit: int,
)
    requires
        velocity.within(limit),
    ensures
        respond(collider, velocity, collision).within(limit),
{
}

/// A body at rest stays at rest through any collision.
pub proof fn lemma_respond_at_rest(collider: Collider, collision: CollisionView)
    ensures
        respond(collider, Vector::zero(), collision) == Vector::zero(),
{
}

/// A magnitude times a sign, or times the opposite sign, gives the number
/// back, or its opposite.
proof fn lemma_magnitude_times_sign(value: int)
    ensures
        magnitude(value) * sign(value) == value,
        magnitude(value) * (sign(value) * 1) == value,
        magnitude(value) * (sign(value) * -1) == -value,
{
    assert(magnitude(value) * 1 == magnitude(value)) by (nonlinear_arith);
    assert(magnitude(value) * (-1) == -magnitude(value)) by (nonlinear_arith);
    assert(magnitude(value) * 0 == 0) by (nonlinear_arith);
}

/// The velocity with which a body of kind `collider`, moving at `velocity`,
/// leaves `collision`.
pub fn collision_response(collider: Collider, velocity: Vec2, collision: &Collision) -> (after: Vec2)
    requires
        collider is Bounce ==> velocity@.abs().representable(),
    ensures
        after@ == respond(collider, velocity@, collision@),
{
    match collider {
        Collider::Static => Vec2::zero(),
        Collider::Bounce => {
            let mut flip_by = velocity.signum();
            if collision.normal.x == 1 {
                flip_by.x = flip_by.x * 1;
            } else if collision.normal.x == -1 {
                flip_by.x = flip_by.x * -1;
            }
            if collision.normal.y == 1 {
                flip_by.y = flip_by.y * 1;
            } else if collision.normal.y == -1 {
                flip_by.y = flip_by.y * -1;
            }
            proof {
                lemma_magnitude_times_sign(velocity.x as int);
                lemma_magnitude_times_sign(velocity.y as int);
            }
            velocity.abs().times(flip_by)
        },
    }
}

impl Body {
    /// A wall: a static body at rest that is neither paddle nor ball.
    pub fn wall(position: Vec2, half_extent: Vec2) -> (body: Body)
        ensures
            body@ == wall(position@, half_extent@),
    {
        Body { position, half_extent, velocity: Vec2::zero(), collider: Collider::Static, role: None }
    }

    /// The box that the body fills now.
    pub fn aabb(&self) -> (aabb: Aabb)
        ensures
            aabb@ == self@.aabb(),
    {
        Aabb { half_extent: self.half_extent, center: self.position }
    }

    /// The box that the body will fill after one tick at its velocity.
    pub fn predicted_aabb(&self) -> (aabb: Aabb)
        requires
            self@.position.plus(self@.velocity).representable(),
        ensures
            aabb@ == self@.predicted_aabb(self@.velocity),
    {
        Aabb { half_extent: self.half_extent, center: self.position.plus(self.velocity) }
    }

    /// Whether every coordinate of the body, and its paddle speed, lies
    /// within [`COORD_LIMIT`].
    pub fn is_in_range(&self) -> (b: bool)
        ensures
            b == self@.in_range(),
    {
        let speed_fits = match self.role {
            Some(Role::Paddle { speed }) => -COORD_LIMIT <= speed && speed <= COORD_LIMIT,
            _ => true,
        };
        self.position.is_within(COORD_LIMIT) && self.half_extent.is_within(COORD_LIMIT)
            && self.velocity.is_within(COORD_LIMIT) && speed_fits
    }
}

} // verus!
