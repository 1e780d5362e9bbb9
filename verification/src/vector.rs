//! Two-dimensional vectors: the mathematical model over `int` and the
//! machine vector over `i64`.

use vstd::prelude::*;

verus! {

/// The sign of an integer: `-1`, `0` or `1`.
pub open spec fn sign(value: int) -> int {
    if value > 0 {
        1
    } else if value < 0 {
        -1
    } else {
        0
    }
}

/// The absolute value of an integer.
pub open spec fn magnitude(value: int) -> int {
    if value < 0 {
        -value
    } else {
        value
    }
}

/// A factor of `-1`, `0` or `1` keeps a product within the bound of the
/// other factor.
pub proof fn lemma_unit_product(value: int, unit: int, limit: int)
    requires
        -limit <= value <= limit,
        -1 <= unit <= 1,
    ensures
        -limit <= value * unit <= limit,
        unit == 1 ==> value * unit == value,
        unit == 0 ==> value * unit == 0,
        unit == -1 ==> value * unit == -value,
{
    assert(value * 1 == value) by (nonlinear_arith);
    assert(value * 0 == 0) by (nonlinear_arith);
    assert(value * (-1) == -value) by (nonlinear_arith);
}

/// A vector of the plane with unbounded integer coordinates. Contracts are
/// stated over this type; [`Vec2`] is what runs.
pub struct Vector {
    pub x: int,
    pub y: int,
}

impl Vector {
    /// The vector `(0, 0)`.
    pub open spec fn zero() -> Vector {
        Vector { x: 0, y: 0 }
    }

    /// Component-wise sum.
    pub open spec fn plus(self, other: Vector) -> Vector {
        Vector { x: self.x + other.x, y: self.y + other.y }
    }

    /// Component-wise difference.
    pub open spec fn minus(self, other: Vector) -> Vector {
        Vector { x: self.x - other.x, y: self.y - other.y }
    }

    /// Component-wise product.
    pub open spec fn times(self, other: Vector) -> Vector {
        Vector { x: self.x * other.x, y: self.y * other.y }
    }

    /// Component-wise absolute value.
    pub open spec fn abs(self) -> Vector {
        Vector { x: magnitude(self.x), y: magnitude(self.y) }
    }

    /// Component-wise sign.
    pub open spec fn signum(self) -> Vector {
        Vector { x: sign(self.x), y: sign(self.y) }
    }

    /// Both components multiplied by `factor`.
    pub open spec fn scaled(self, factor: int) -> Vector {
        Vector { x: self.x * factor, y: self.y * factor }
    }

    /// The smaller of the two components.
    pub open spec fn min_element(self) -> int {
        if self.x <= self.y {
            self.x
        } else {
            self.y
        }
    }

    /// Both components lie in `[-limit, limit]`.
    pub open spec fn within(self, limit: int) -> bool {
        &&& -limit <= self.x <= limit
        &&& -limit <= self.y <= limit
    }

    /// Both components fit in an `i64`.
    pub open spec fn representable(self) -> bool {
        &&& i64::MIN <= self.x <= i64::MAX
        &&& i64::MIN <= self.y <= i64::MAX
    }
}

/// A vector of the plane with `i64` coordinates.
#[derive(Clone, Copy, Debug, PartialEq, Eq, Structural)]
pub struct Vec2 {
    pub x: i64,
    pub y: i64,
}

impl View for Vec2 {
    type V = Vector;

    open spec fn view(&self) -> Vector {
        Vector { x: self.x as int, y: self.y as int }
    }
}

impl Vec2 {
    /// The vector `(x, y)`.
    pub fn new(x: i64, y: i64) -> (v: Vec2)
        ensures
            v.x == x,
            v.y == y,
    {
        Vec2 { x, y }
    }

    /// The vector `(0, 0)`.
    pub fn zero() -> (v: Vec2)
        ensures
            v@ == Vector::zero(),
    {
        Vec2 { x: 0, y: 0 }
    }

    /// Component-wise sum.
    pub fn plus(self, other: Vec2) -> (v: Vec2)
        requires
            self@.plus(other@).representable(),
        ensures
            v@ == self@.plus(other@),
    {
        Vec2 { x: self.x + other.x, y: self.y + other.y }
    }

    /// Component-wise difference.
    pub fn minus(self, other: Vec2) -> (v: Vec2)
        requires
            self@.minus(other@).representable(),
        ensures
            v@ == self@.minus(other@),
    {
        Vec2 { x: self.x - other.x, y: self.y - other.y }
    }

    /// Component-wise product.
    pub fn times(self, other: Vec2) -> (v: Vec2)
        requires
            self@.times(other@).representable(),
        ensures
            v@ == self@.times(other@),
    {
        Vec2 { x: self.x * other.x, y: self.y * other.y }
    }

    /// Component-wise absolute value.
    pub fn abs(self) -> (v: Vec2)
        requires
            self@.abs().representable(),
        ensures
            v@ == self@.abs(),
    {
        Vec2 {
            x: if self.x < 0 { -self.x } else { self.x },
            y: if self.y < 0 { -self.y } else { self.y },
        }
    }

    /// Component-wise sign: each component becomes `-1`, `0` or `1`.
    pub fn signum(self) -> (v: Vec2)
        ensures
            v@ == self@.signum(),
    {
        Vec2 {
            x: if self.x > 0 { 1 } else if self.x < 0 { -1 } else { 0 },
            y: if self.y > 0 { 1 } else if self.y < 0 { -1 } else { 0 },
        }
    }

    /// The smaller of the two components.
    pub fn min_element(self) -> (m: i64)
        ensures
            m == self@.min_element(),
    {
        if self.x <= self.y {
            self.x
        } else {
            self.y
        }
    }

    /// Whether both components lie in `[-limit, limit]`.
    pub fn is_within(self, limit: i64) -> (b: bool)
        ensures
            b == self@.within(limit as int),
    {
        limit >= 0 && -limit <= self.x && self.x <= limit && -limit <= self.y && self.y <= limit
    }
}

} // verus!
