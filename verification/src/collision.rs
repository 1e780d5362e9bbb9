//! Overlap of two axis-aligned boxes and the axis along which to part them.

use vstd::prelude::*;
use crate::vector::{lemma_unit_product, magnitude, sign, Vec2, Vector};

verus! {

/// Largest magnitude of a coordinate of a box handed to
/// [`resolve_collision`]: two to the power 61. Within it every sum and
/// difference that the resolution forms fits in an `i64`.
pub const REACH_LIMIT: i64 = 0x2000_0000_0000_0000;

/// Model of an axis-aligned box: its centre and half its width and height.
pub struct AabbView {
    pub half_extent: Vector,
    pub center: Vector,
}

impl AabbView {
    /// Centre and half-extent lie within `limit` on both axes.
    pub open spec fn within(self, limit: int) -> bool {
        self.half_extent.within(limit) && self.center.within(limit)
    }

    /// The box measured in a unit `factor` times finer.
    pub open spec fn scaled(self, factor: int) -> AabbView {
        AabbView {
            half_extent: self.half_extent.scaled(factor),
            center: self.center.scaled(factor),
        }
    }
}

/// An axis-aligned box: its centre and half its width and height.
#[derive(Clone, Copy, Debug, PartialEq, Eq, Structural)]
pub struct Aabb {
    /// Half the width and half the height.
    pub half_extent: Vec2,
    /// Centre of the box.
    pub center: Vec2,
}

impl View for Aabb {
    type V = AabbView;

    open spec fn view(&self) -> AabbView {
        AabbView { half_extent: self.half_extent@, center: self.center@ }
    }
}

/// Model of a detected collision.
pub struct CollisionView {
    /// Unit vector along the axis of least penetration, pointing from the
    /// source towards the target; the zero vector where the centres
    /// coincide on that axis.
    pub normal: Vector,
    /// Penetration depth along that axis.
    pub overlap: int,
    /// Point of contact.
    pub position: Vector,
}

impl CollisionView {
    /// The collision measured in a unit `factor` times finer: the normal is
    /// a direction and stays as it is.
    pub open spec fn scaled(self, factor: int) -> CollisionView {
        CollisionView {
            normal: self.normal,
            overlap: self.overlap * factor,
            position: self.position.scaled(factor),
        }
    }
}

/// A detected collision between a source box and a target box.
#[derive(Clone, Copy, Debug, PartialEq, Eq, Structural)]
pub struct Collision {
    /// Unit vector along the axis of least penetration, pointing from the
    /// source towards the target; the zero vector where the centres
    /// coincide on that axis.
    pub normal: Vec2,
    /// Penetration depth along that axis, always positive.
    pub overlap: i64,
    /// Point of contact: on the source's face on that axis, level with the
    /// target's centre on the other.
    pub position: Vec2,
}

impl View for Collision {
    type V = CollisionView;

    open spec fn view(&self) -> CollisionView {
        CollisionView {
            normal: self.normal@,
            overlap: self.overlap as int,
            position: self.position@,
        }
    }
}

/// How far the two boxes penetrate each other on each axis: the sum of the
/// half-extents less the distance of the centres. A component that is zero
/// or negative means the boxes are apart on that axis.
pub open spec fn penetration(source: AabbView, target: AabbView) -> Vector {
    source.half_extent.plus(target.half_extent).minus(target.center.minus(source.center).abs())
}

/// The two boxes overlap: they penetrate each other on both axes.
pub open spec fn overlapping(source: AabbView, target: AabbView) -> bool {
    penetration(source, target).min_element() > 0
}

/// The collision of `source` with `target`, if they overlap.
///
/// The axis with the smaller penetration is the separation axis; on equal
/// penetration it is the y axis. The normal is the unit vector of that axis
/// times the sign of the centre difference (zero when the centres coincide
/// on that axis). The contact point lies on the source's face on that axis
/// and at the target's centre on the other.
pub open spec fn resolve(source: AabbView, target: AabbView) -> Option<CollisionView> {
    let depth = penetration(source, target);
    let direction = target.center.minus(source.center).signum();
    if !overlapping(source, target) {
        None
    } else if depth.x < depth.y {
        Some(
            CollisionView {
                normal: Vector { x: direction.x, y: 0 },
                overlap: depth.x,
                position: Vector {
                    x: source.center.x + source.half_extent.x * direction.x,
                    y: target.center.y,
                },
            },
        )
    } else {
        Some(
            CollisionView {
                normal: Vector { x: 0, y: direction.y },
                overlap: depth.y,
                position: Vector {
                    x: target.center.x,
                    y: source.center.y + source.half_extent.y * direction.y,
                },
            },
        )
    }
}

/// Two boxes collide exactly when, on both axes, their centres are closer
/// than their half-extents sum to.
pub proof fn lemma_collision_criterion(source: AabbView, target: AabbView)
    ensures
        resolve(source, target).is_some() <==> {
            &&& magnitude(target.center.x - source.center.x) < source.half_extent.x
                + target.half_extent.x
            &&& magnitude(target.center.y - source.center.y) < source.half_extent.y
                + target.half_extent.y
        },
{
}

/// Two boxes whose centres are farther apart on both axes than their
/// half-extents sum to do not collide.
pub proof fn lemma_apart_boxes_do_not_collide(source: AabbView, target: AabbView)
    requires
        magnitude(target.center.x - source.center.x) > source.half_extent.x + target.half_extent.x,
        magnitude(target.center.y - source.center.y) > source.half_extent.y + target.half_extent.y,
    ensures
        resolve(source, target).is_none(),
{
}

/// A collision is resolved along the axis of least penetration: its normal
/// has the sign of the centre difference on that axis and is zero on the
/// other, and its overlap is the penetration on that axis, which is
/// positive.
pub proof fn lemma_least_penetration_axis(source: AabbView, target: AabbView)
    requires
        overlapping(source, target),
    ensures
        resolve(source, target).is_some(),
        resolve(source, target).unwrap().overlap == penetration(source, target).min_element(),
        resolve(source, target).unwrap().overlap > 0,
        penetration(source, target).x < penetration(source, target).y ==> {
            &&& resolve(source, target).unwrap().normal == (Vector {
                x: sign(target.center.x - source.center.x),
                y: 0,
            })
            &&& resolve(source, target).unwrap().position.y == target.center.y
        },
        penetration(source, target).x > penetration(source, target).y ==> {
            &&& resolve(source, target).unwrap().normal == (Vector {
                x: 0,
                y: sign(target.center.y - source.center.y),
            })
            &&& resolve(source, target).unwrap().position.x == target.center.x
        },
{
}

/// When two overlapping boxes penetrate each other equally on both axes,
/// the collision is resolved along the y axis.
pub proof fn lemma_tie_resolves_on_y(source: AabbView, target: AabbView)
    requires
        overlapping(source, target),
        penetration(source, target).x == penetration(source, target).y,
    ensures
        resolve(source, target) == Some(
            CollisionView {
                normal: Vector { x: 0, y: sign(target.center.y - source.center.y) },
                overlap: penetration(source, target).y,
                position: Vector {
                    x: target.center.x,
                    y: source.center.y + source.half_extent.y * sign(
                        target.center.y - source.center.y,
                    ),
                },
            },
        ),
{
}

/// The normal of a collision is a unit vector along one axis whenever the
/// centres differ on the separation axis; where they coincide on it, the
/// normal is the zero vector.
pub proof fn lemma_normal_is_axis_unit(source: AabbView, target: AabbView)
    requires
        overlapping(source, target),
    ensures
        ({
            let normal = resolve(source, target).unwrap().normal;
            let depth = penetration(source, target);
            let apart = if depth.x < depth.y {
                target.center.x != source.center.x
            } else {
                target.center.y != source.center.y
            };
            &&& apart ==> magnitude(normal.x) + magnitude(normal.y) == 1
            &&& !apart ==> normal == Vector::zero()
        }),
{
}

/// Multiplying by a positive factor keeps the sign and the order of
/// numbers and commutes with sums, differences and magnitudes.
proof fn lemma_scaling(a: int, b: int, factor: int)
    requires
        factor > 0,
    ensures
        (a + b) * factor == a * factor + b * factor,
        (a - b) * factor == a * factor - b * factor,
        magnitude(a) * factor == magnitude(a * factor),
        sign(a * factor) == sign(a),
        a < b <==> a * factor < b * factor,
        a <= b <==> a * factor <= b * factor,
{
    assert((a + b) * factor == a * factor + b * factor) by (nonlinear_arith);
    assert((a - b) * factor == a * factor - b * factor) by (nonlinear_arith);
    assert((-a) * factor == -(a * factor)) by (nonlinear_arith);
    assert(a > 0 ==> a * factor > 0) by (nonlinear_arith)
        requires
            factor > 0,
    ;
    assert(a < 0 ==> a * factor < 0) by (nonlinear_arith)
        requires
            factor > 0,
    ;
    assert(a == 0 ==> a * factor == 0) by (nonlinear_arith);
    assert(a < b <==> a * factor < b * factor) by (nonlinear_arith)
        requires
            factor > 0,
    ;
    assert(a <= b <==> a * factor <= b * factor) by (nonlinear_arith)
        requires
            factor > 0,
    ;
}

/// Collisions do not depend on the unit of length: measured in a unit
/// `factor` times finer, two boxes collide exactly when they did, with the
/// same normal, and with overlap and contact point in the finer unit.
pub proof fn lemma_resolve_scales(source: AabbView, target: AabbView, factor: int)
    requires
        factor > 0,
    ensures
        resolve(source.scaled(factor), target.scaled(factor)) == match resolve(source, target) {
            Some(collision) => Some(collision.scaled(factor)),
            None => None,
        },
{
    let depth = penetration(source, target);
    let finer = penetration(source.scaled(factor), target.scaled(factor));
    lemma_scaling(target.center.x, source.center.x, factor);
    lemma_scaling(target.center.y, source.center.y, factor);
    lemma_scaling(target.center.x - source.center.x, 0, factor);
    lemma_scaling(target.center.y - source.center.y, 0, factor);
    lemma_scaling(source.half_extent.x, target.half_extent.x, factor);
    lemma_scaling(source.half_extent.y, target.half_extent.y, factor);
    lemma_scaling(
        source.half_extent.x + target.half_extent.x,
        magnitude(target.center.x - source.center.x),
        factor,
    );
    lemma_scaling(
        source.half_extent.y + target.half_extent.y,
        magnitude(target.center.y - source.center.y),
        factor,
    );
    assert(finer == depth.scaled(factor));
    lemma_scaling(depth.x, depth.y, factor);
    lemma_scaling(0, depth.x, factor);
    lemma_scaling(0, depth.y, factor);
    let direction = target.center.minus(source.center).signum();
    assert(source.half_extent.x * factor * direction.x == source.half_extent.x * direction.x
        * factor) by (nonlinear_arith);
    assert(source.half_extent.y * factor * direction.y == source.half_extent.y * direction.y
        * factor) by (nonlinear_arith);
    lemma_scaling(source.center.x, source.half_extent.x * direction.x, factor);
    lemma_scaling(source.center.y, source.half_extent.y * direction.y, factor);
}

/// Tests the source box against the target box and describes their
/// collision: `None` when they are apart or only touch, else the separation
/// axis, the penetration depth along it and the point of contact.
pub fn resolve_collision(source: Aabb, target: Aabb) -> (collision: Option<Collision>)
    requires
        source@.within(REACH_LIMIT as int),
        target@.within(REACH_LIMIT as int),
    ensures
        collision.is_some() == overlapping(source@, target@),
        match collision {
            Some(c) => resolve(source@, target@) == Some(c@),
            None => resolve(source@, target@).is_none(),
        },
{
    let center_difference = target.center.minus(source.center);
    let extents_sum = source.half_extent.plus(target.half_extent);
    let overlap = extents_sum.minus(center_difference.abs());
    if overlap.min_element() <= 0 {
        return None;
    }
    let direction = center_difference.signum();
    proof {
        lemma_unit_product(source.half_extent.x as int, direction.x as int, REACH_LIMIT as int);
        lemma_unit_product(source.half_extent.y as int, direction.y as int, REACH_LIMIT as int);
    }
    if overlap.x < overlap.y {
        Some(
            Collision {
                normal: Vec2::new(direction.x, 0),
                overlap: overlap.x,
                position: Vec2::new(
                    source.center.x + source.half_extent.x * direction.x,
                    target.center.y,
                ),
            },
        )
    } else {
        Some(
            Collision {
                normal: Vec2::new(0, direction.y),
                overlap: overlap.y,
                position: Vec2::new(
                    target.center.x,
                    source.center.y + source.half_extent.y * direction.y,
                ),
            },
        )
    }
}

} // verus!
