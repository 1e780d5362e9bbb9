//! The player's input for one tick.

use vstd::prelude::*;

verus! {

/// Which of the two steering keys are held down during a tick.
#[derive(Clone, Copy, Debug, PartialEq, Eq, Structural)]
pub struct PaddleInput {
    /// The key that moves the paddle to the left is down.
    pub left: bool,
    /// The key that moves the paddle to the right is down.
    pub right: bool,
}

impl PaddleInput {
    /// The direction asked for: `1` to the right, `-1` to the left, `0` when
    /// neither key or both keys are down.
    pub open spec fn spec_direction(self) -> int {
        (if self.right { 1int } else { 0int }) - (if self.left { 1int } else { 0int })
    }

    /// The direction asked for: `1` to the right, `-1` to the left, `0` when
    /// neither key or both keys are down.
    pub fn direction(&self) -> (direction: i64)
        ensures
            direction == self.spec_direction(),
    {
        let right: i64 = if self.right { 1 } else { 0 };
        let left: i64 = if self.left { 1 } else { 0 };
        right - left
    }
}

} // verus!
