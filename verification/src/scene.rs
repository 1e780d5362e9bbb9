//! A scene of bodies and the three phases of a tick on it: collision
//! response, steering of the paddle, and motion.

use vstd::prelude::*;
use crate::body::{
    collision_response, lemma_respond_within, Body, BodyView, Collider, Role, COORD_LIMIT,
};
use crate::collision::{resolve_collision, Collision, CollisionView};
use crate::input::PaddleInput;
use crate::laws::{
    lemma_collisions_fit, lemma_motion_fits, lemma_starting_bodies, lemma_steering_fits,
    lemma_tick_keeps_shape,
};
use crate::phases::{
    after_collisions, after_motion, after_steering, after_tick, collisions, collisions_among,
    collisions_of, in_range, representable, sole_ball, sole_paddle, starting_bodies,
    velocity_after, well_formed,
};
use crate::vector::Vec2;

verus! {

/// The body plays the part asked for: the paddle's where `paddle` is true,
/// the ball's where it is false.
spec fn plays(body: BodyView, paddle: bool) -> bool {
    if paddle {
        body.is_paddle()
    } else {
        body.is_ball()
    }
}

/// Body `i` plays the part asked for and no other body does.
spec fn sole(bodies: Seq<BodyView>, i: int, paddle: bool) -> bool {
    if paddle {
        sole_paddle(bodies, i)
    } else {
        sole_ball(bodies, i)
    }
}

/// The models of a list of collisions.
pub open spec fn views(log: Seq<Collision>) -> Seq<CollisionView> {
    Seq::new(log.len(), |i: int| log[i]@)
}

/// The bodies of a game, each known by its index.
pub struct Scene {
    bodies: Vec<Body>,
}

impl View for Scene {
    type V = Seq<BodyView>;

    closed spec fn view(&self) -> Seq<BodyView> {
        Seq::new(self.bodies@.len(), |i: int| self.bodies@[i]@)
    }
}

impl Scene {
    /// A scene without bodies.
    pub fn new() -> (scene: Scene)
        ensures
            scene@ == Seq::<BodyView>::empty(),
    {
        Scene { bodies: Vec::new() }
    }

    /// The number of bodies.
    pub fn len(&self) -> (len: usize)
        ensures
            len == self@.len(),
    {
        self.bodies.len()
    }

    /// Adds a body at the end of the scene and returns its index.
    pub fn spawn(&mut self, body: Body) -> (id: usize)
        ensures
            id == old(self)@.len(),
            final(self)@ == old(self)@.push(body@),
    {
        let id = self.bodies.len();
        self.bodies.push(body);
        id
    }

    /// The body with index `id`, if there is one.
    pub fn body(&self, id: usize) -> (body: Option<Body>)
        ensures
            body.is_some() == (id < self@.len()),
            body matches Some(b) ==> b@ == self@[id as int],
    {
        if id < self.bodies.len() {
            Some(self.bodies[id])
        } else {
            None
        }
    }

    /// The index of the only body that plays the part asked for: the
    /// paddle's where `paddle` is true, the ball's where it is false.
    fn sole_player(&self, paddle: bool) -> (player: Option<usize>)
        ensures
            match player {
                Some(i) => sole(self@, i as int, paddle),
                None => forall|i: int| !sole(self@, i, paddle),
            },
    {
        let mut found: Option<usize> = None;
        let mut several = false;
        let ghost mut second: int = 0;
        let mut k: usize = 0;
        while k < self.bodies.len()
            invariant
                k <= self.bodies.len(),
                found is None ==> !several && forall|i: int|
                    0 <= i < k ==> !plays(#[trigger] self@[i], paddle),
                found matches Some(first) ==> first < k && plays(self@[first as int], paddle),
                found matches Some(first) ==> !several ==> forall|i: int|
                    0 <= i < k && plays(#[trigger] self@[i], paddle) ==> i == first,
                found matches Some(first) ==> several ==> 0 <= second < k && second != first
                    && plays(self@[second], paddle),
            decreases self.bodies.len() - k,
        {
            let plays_it = match self.bodies[k].role {
                Some(Role::Paddle { .. }) => paddle,
                Some(Role::Ball) => !paddle,
                None => false,
            };
            assert(plays_it == plays(self@[k as int], paddle));
            if plays_it {
                if found.is_some() {
                    several = true;
                    proof {
                        second = k as int;
                    }
                } else {
                    found = Some(k);
                }
            }
            k += 1;
        }
        if several {
            None
        } else {
            found
        }
    }

    /// The index of the paddle, where exactly one body is a paddle.
    pub fn paddle(&self) -> (paddle: Option<usize>)
        ensures
            match paddle {
                Some(i) => sole_paddle(self@, i as int),
                None => forall|i: int| !sole_paddle(self@, i),
            },
    {
        let paddle = self.sole_player(true);
        proof {
            if paddle is None {
                assert forall|i: int| !sole_paddle(self@, i) by {
                    assert(!sole(self@, i, true));
                }
            }
        }
        paddle
    }

    /// The index of the ball, where exactly one body is a ball.
    pub fn ball(&self) -> (ball: Option<usize>)
        ensures
            match ball {
                Some(i) => sole_ball(self@, i as int),
                None => forall|i: int| !sole_ball(self@, i),
            },
    {
        let ball = self.sole_player(false);
        proof {
            if ball is None {
                assert forall|i: int| !sole_ball(self@, i) by {
                    assert(!sole(self@, i, false));
                }
            }
        }
        ball
    }

    /// Whether the scene is one that the game is played on: every body has
    /// a positive width and height, and there is exactly one paddle and
    /// exactly one ball.
    pub fn is_well_formed(&self) -> (b: bool)
        ensures
            b == well_formed(self@),
    {
        let mut k: usize = 0;
        while k < self.bodies.len()
            invariant
                k <= self.bodies.len(),
                forall|i: int|
                    0 <= i < k ==> (#[trigger] self@[i]).half_extent.x > 0 && self@[i].half_extent.y
                        > 0,
            decreases self.bodies.len() - k,
        {
            if self.bodies[k].half_extent.x <= 0 || self.bodies[k].half_extent.y <= 0 {
                assert(!(self@[k as int].half_extent.x > 0 && self@[k as int].half_extent.y > 0));
                return false;
            }
            k += 1;
        }
        self.paddle().is_some() && self.ball().is_some()
    }

    /// Whether every body of the scene is in range.
    pub fn is_in_range(&self) -> (b: bool)
        ensures
            b == in_range(self@),
    {
        let mut k: usize = 0;
        while k < self.bodies.len()
            invariant
                k <= self.bodies.len(),
                forall|i: int| 0 <= i < k ==> (#[trigger] self@[i]).in_range(),
            decreases self.bodies.len() - k,
        {
            if !self.bodies[k].is_in_range() {
                assert(!self@[k as int].in_range());
                return false;
            }
            k += 1;
        }
        true
    }

    /// Collision response. Every body is tested, at the position that its
    /// velocity would take it to, against every other body where that body
    /// stands, in the order of the scene; each collision found changes the
    /// velocity of the body under test as its collider says. Positions do
    /// not change. Returns the collisions found, in the order in which they
    /// were found.
    pub fn collision_system(&mut self) -> (log: Vec<Collision>)
        requires
            in_range(old(self)@),
        ensures
            final(self)@ == after_collisions(old(self)@),
            views(log@) == collisions(old(self)@),
    {
        let ghost before = self@;
        let mut log: Vec<Collision> = Vec::new();
        let n = self.bodies.len();
        let mut i: usize = 0;
        while i < n
            invariant
                i <= n,
                n == self.bodies.len(),
                n == before.len(),
                in_range(before),
                forall|k: int|
                    0 <= k < i ==> #[trigger] self@[k] == before[k].with_velocity(
                        velocity_after(before, k, n as nat),
                    ),
                forall|k: int| i <= k < n ==> #[trigger] self@[k] == before[k],
                views(log@) == collisions_among(before, i as nat),
            decreases n - i,
        {
            let mut j: usize = 0;
            while j < n
                invariant
                    i < n,
                    j <= n,
                    n == self.bodies.len(),
                    n == before.len(),
                    in_range(before),
                    forall|k: int|
                        0 <= k < i ==> #[trigger] self@[k] == before[k].with_velocity(
                            velocity_after(before, k, n as nat),
                        ),
                    forall|k: int| i < k < n ==> #[trigger] self@[k] == before[k],
                    self@[i as int] == before[i as int].with_velocity(
                        velocity_after(before, i as int, j as nat),
                    ),
                    self@[i as int].velocity.within(COORD_LIMIT as int),
                    views(log@) == collisions_among(before, i as nat) + collisions_of(
                        before,
                        i as int,
                        j as nat,
                    ),
                decreases n - j,
            {
                if i != j {
                    let source = self.bodies[i];
                    let target = self.bodies[j];
                    assert(source@ == self@[i as int]);
                    assert(target@ == self@[j as int]);
                    assert(before[i as int].in_range());
                    assert(before[j as int].in_range());
                    assert(target@.aabb() == before[j as int].aabb());
                    match resolve_collision(source.predicted_aabb(), target.aabb()) {
                        Some(collision) => {
                            let ghost earlier = log@;
                            log.push(collision);
                            assert(views(log@) == views(earlier).push(collision@));
                            let after = collision_response(
                                source.collider,
                                source.velocity,
                                &collision,
                            );
                            proof {
                                lemma_respond_within(
                                    source@.collider,
                                    source@.velocity,
                                    collision@,
                                    COORD_LIMIT as int,
                                );
                            }
                            let ghost scene = self@;
                            self.bodies[i].velocity = after;
                            assert forall|k: int| 0 <= k < n && k != i implies #[trigger] self@[k]
                                == scene[k] by {}
                        },
                        None => {},
                    }
                }
                j += 1;
            }
            i += 1;
        }
        log
    }

    /// Steering. Where exactly one body is the paddle, its x velocity
    /// becomes its speed in the direction that `input` asks for; its y
    /// velocity, and every other body, stay as they are. A scene with no
    /// paddle or with several is left as it is.
    pub fn paddle_system(&mut self, input: PaddleInput)
        requires
            representable(after_steering(old(self)@, input)),
        ensures
            final(self)@ == after_steering(old(self)@, input),
    {
        match self.paddle() {
            Some(i) => {
                let ghost before = self@;
                assert(after_steering(before, input)[i as int].representable());
                if let Some(Role::Paddle { speed }) = self.bodies[i].role {
                    self.bodies[i].velocity.x = speed * input.direction();
                }
                assert forall|k: int| 0 <= k < before.len() && k != i implies #[trigger] self@[k]
                    == before[k] by {}
            },
            None => {},
        }
    }

    /// Motion. Every body advances by its velocity.
    pub fn velocity_system(&mut self)
        requires
            representable(after_motion(old(self)@)),
        ensures
            final(self)@ == after_motion(old(self)@),
    {
        let ghost before = self@;
        let n = self.bodies.len();
        let mut k: usize = 0;
        while k < n
            invariant
                k <= n,
                n == self.bodies.len(),
                n == before.len(),
                representable(after_motion(before)),
                forall|i: int| 0 <= i < k ==> #[trigger] self@[i] == before[i].moved(),
                forall|i: int| k <= i < n ==> #[trigger] self@[i] == before[i],
            decreases n - k,
        {
            let ghost scene = self@;
            assert(after_motion(before)[k as int].representable());
            let body = self.bodies[k];
            assert(body@ == scene[k as int]);
            self.bodies[k].position = body.position.plus(body.velocity);
            assert forall|i: int| 0 <= i < n && i != k implies #[trigger] self@[i]
                == scene[i] by {}
            k += 1;
        }
    }

    /// One tick of the game: collision response, then steering, then
    /// motion. Returns the collisions found, in the order in which they were
    /// found.
    pub fn tick(&mut self, input: PaddleInput) -> (log: Vec<Collision>)
        requires
            in_range(old(self)@),
        ensures
            final(self)@ == after_tick(old(self)@, input),
            views(log@) == collisions(old(self)@),
            well_formed(old(self)@) ==> well_formed(final(self)@),
    {
        proof {
            lemma_tick_keeps_shape(self@, input);
            lemma_collisions_fit(self@);
            lemma_steering_fits(after_collisions(self@), input);
            lemma_motion_fits(after_steering(after_collisions(self@), input));
        }
        let log = self.collision_system();
        self.paddle_system(input);
        self.velocity_system();
        log
    }
}

/// The scene that a game starts on: a ball that moves up and to the right,
/// the paddle below it, and four walls around them.
pub fn spawn_the_things() -> (scene: Scene)
    ensures
        scene@ == starting_bodies(),
        well_formed(scene@),
        in_range(scene@),
{
    let mut scene = Scene::new();
    scene.spawn(
        Body {
            position: Vec2::new(0, 50),
            half_extent: Vec2::new(15, 15),
            velocity: Vec2::new(1, 1),
            collider: Collider::Bounce,
            role: Some(Role::Ball),
        },
    );
    scene.spawn(
        Body {
            position: Vec2::new(0, 0),
            half_extent: Vec2::new(60, 15),
            velocity: Vec2::zero(),
            collider: Collider::Static,
            role: Some(Role::Paddle { speed: 3 }),
        },
    );
    scene.spawn(Body::wall(Vec2::new(300, 0), Vec2::new(15, 500)));
    scene.spawn(Body::wall(Vec2::new(-300, 0), Vec2::new(15, 500)));
    scene.spawn(Body::wall(Vec2::new(0, -300), Vec2::new(500, 15)));
    scene.spawn(Body::wall(Vec2::new(0, 300), Vec2::new(500, 15)));
    proof {
        assert(scene@ =~= starting_bodies());
        lemma_starting_bodies();
    }
    scene
}

} // verus!
