use arcade_physics::body::{collision_response, Collider};
use arcade_physics::collision::Collision;
use arcade_physics::vector::Vec2;

fn hit(normal_x: i64, normal_y: i64) -> Collision {
    Collision { normal: Vec2::new(normal_x, normal_y), overlap: 1, position: Vec2::new(0, 0) }
}

fn normals() -> Vec<(i64, i64)> {
    vec![(1, 0), (-1, 0), (0, 1), (0, -1), (0, 0)]
}

#[test]
fn static_body_stops_whatever_the_normal() {
    for (x, y) in normals() {
        let after = collision_response(Collider::Static, Vec2::new(2, -3), &hit(x, y));
        assert_eq!(after, Vec2::new(0, 0));
    }
    let after = collision_response(Collider::Static, Vec2::new(i64::MIN, i64::MAX), &hit(1, 0));
    assert_eq!(after, Vec2::new(0, 0));
}

#[test]
fn bounce_keeps_velocity_along_a_positive_normal() {
    let after = collision_response(Collider::Bounce, Vec2::new(3, -3), &hit(1, 0));
    assert_eq!(after, Vec2::new(3, -3));
}

#[test]
fn bounce_keeps_negative_velocity_along_a_positive_normal() {
    let after = collision_response(Collider::Bounce, Vec2::new(-3, -3), &hit(1, 0));
    assert_eq!(after, Vec2::new(-3, -3));
}

#[test]
fn bounce_turns_round_along_a_negative_normal() {
    let after = collision_response(Collider::Bounce, Vec2::new(3, -3), &hit(-1, 0));
    assert_eq!(after, Vec2::new(-3, -3));
    let after = collision_response(Collider::Bounce, Vec2::new(-3, -3), &hit(-1, 0));
    assert_eq!(after, Vec2::new(3, -3));
}

#[test]
fn bounce_on_y_leaves_x_alone() {
    let after = collision_response(Collider::Bounce, Vec2::new(3, -3), &hit(0, -1));
    assert_eq!(after, Vec2::new(3, 3));
    let after = collision_response(Collider::Bounce, Vec2::new(3, -3), &hit(0, 1));
    assert_eq!(after, Vec2::new(3, -3));
}

#[test]
fn bounce_with_a_zero_normal_changes_nothing() {
    let after = collision_response(Collider::Bounce, Vec2::new(3, -3), &hit(0, 0));
    assert_eq!(after, Vec2::new(3, -3));
}

#[test]
fn bounce_from_rest_stays_at_rest() {
    for (x, y) in normals() {
        let after = collision_response(Collider::Bounce, Vec2::new(0, 0), &hit(x, y));
        assert_eq!(after, Vec2::new(0, 0));
    }
}

#[test]
fn bounce_keeps_the_magnitude() {
    for (x, y) in normals() {
        for vx in [-7i64, -1, 0, 1, 7, i64::MAX, -i64::MAX] {
            for vy in [-5i64, 0, 5] {
                let velocity = Vec2::new(vx, vy);
                let after = collision_response(Collider::Bounce, velocity, &hit(x, y));
                assert_eq!(after.abs(), velocity.abs());
            }
        }
    }
}

#[test]
fn bounce_of_a_body_moving_right_follows_the_normal() {
    for vx in [1i64, 2, 3, 1000] {
        for normal_x in [1i64, -1] {
            let after = collision_response(Collider::Bounce, Vec2::new(vx, -3), &hit(normal_x, 0));
            assert_eq!(after.x.signum(), normal_x);
            assert_eq!(after.y, -3);
        }
    }
}

#[test]
fn responses_do_not_depend_on_the_unit() {
    for collider in [Collider::Static, Collider::Bounce] {
        for (x, y) in normals() {
            for factor in [1i64, 2, 10] {
                let coarse = collision_response(collider, Vec2::new(3, -4), &hit(x, y));
                let fine = collision_response(
                    collider,
                    Vec2::new(3 * factor, -4 * factor),
                    &hit(x, y),
                );
                assert_eq!(fine, Vec2::new(coarse.x * factor, coarse.y * factor));
            }
        }
    }
}
