//! Arcade physics on whole-number coordinates: axis-aligned boxes that move,
//! collide and bounce, one tick at a time.
//!
//! A [`scene::Scene`] holds the bodies. One tick runs three phases on it:
//! collision response, steering of the paddle from the player's input, and
//! motion. Every executable function carries a contract over the
//! mathematical models in [`vector`], [`collision`], [`body`] and
//! [`phases`]; [`laws`] holds what is proved of those models.
//!
//! Lengths are whole numbers of a unit that the caller chooses, and
//! velocities are lengths per tick. Collisions and responses are the same in
//! every unit, so a finer unit gives a finer world and nothing else.
//! Coordinates are `i64`; a tick is defined on scenes whose coordinates lie
//! within [`body::COORD_LIMIT`].

pub mod vector;
pub mod collision;
pub mod body;
pub mod input;
pub mod phases;
pub mod laws;
pub mod scene;
