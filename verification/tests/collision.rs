use arcade_physics::collision::{resolve_collision, Aabb, Collision, REACH_LIMIT};
use arcade_physics::vector::Vec2;

fn aabb(half_x: i64, half_y: i64, x: i64, y: i64) -> Aabb {
    Aabb { half_extent: Vec2::new(half_x, half_y), center: Vec2::new(x, y) }
}

#[test]
fn apart_on_both_axes_is_no_collision() {
    assert_eq!(resolve_collision(aabb(1, 1, 0, 0), aabb(1, 1, 5, 5)), None);
    assert_eq!(resolve_collision(aabb(1, 1, 0, 0), aabb(1, 1, -5, 5)), None);
    assert_eq!(resolve_collision(aabb(1, 1, 0, 0), aabb(1, 1, 3, -3)), None);
    assert_eq!(resolve_collision(aabb(2, 3, 100, 100), aabb(4, 5, 107, 109)), None);
}

#[test]
fn apart_on_one_axis_is_no_collision() {
    assert_eq!(resolve_collision(aabb(1, 1, 0, 0), aabb(1, 1, 5, 0)), None);
    assert_eq!(resolve_collision(aabb(1, 1, 0, 0), aabb(1, 1, 0, -5)), None);
}

#[test]
fn touching_boxes_do_not_collide() {
    assert_eq!(resolve_collision(aabb(1, 1, 0, 0), aabb(1, 1, 2, 0)), None);
    assert_eq!(resolve_collision(aabb(1, 1, 0, 0), aabb(1, 1, 0, 2)), None);
    assert_eq!(resolve_collision(aabb(1, 1, 0, 0), aabb(1, 1, 2, 2)), None);
    assert_eq!(resolve_collision(aabb(1, 1, 0, 0), aabb(1, 1, -2, 1)), None);
}

// Lengths in tenths: half-extents 1.0, centres 0.0 and 1.5 apart on x.
#[test]
fn smaller_overlap_on_x_gives_x_normal() {
    let collision = resolve_collision(aabb(10, 10, 0, 0), aabb(10, 10, 15, 0));
    assert_eq!(
        collision,
        Some(Collision { normal: Vec2::new(1, 0), overlap: 5, position: Vec2::new(10, 0) })
    );
}

// The same in halves: half-extents 1.0, centres 0.0 and 1.5 apart on x.
#[test]
fn smaller_overlap_on_x_in_halves() {
    let collision = resolve_collision(aabb(2, 2, 0, 0), aabb(2, 2, 3, 0)).unwrap();
    assert_eq!(collision.normal, Vec2::new(1, 0));
    assert_eq!(collision.overlap, 1);
}

#[test]
fn target_on_the_left_gives_negative_x_normal() {
    let collision = resolve_collision(aabb(10, 10, 0, 0), aabb(10, 10, -15, 0));
    assert_eq!(
        collision,
        Some(Collision { normal: Vec2::new(-1, 0), overlap: 5, position: Vec2::new(-10, 0) })
    );
}

#[test]
fn smaller_overlap_on_y_gives_y_normal() {
    let above = resolve_collision(aabb(10, 10, 0, 0), aabb(10, 10, 0, 15));
    assert_eq!(
        above,
        Some(Collision { normal: Vec2::new(0, 1), overlap: 5, position: Vec2::new(0, 10) })
    );
    let below = resolve_collision(aabb(10, 10, 0, 0), aabb(10, 10, 3, -15));
    assert_eq!(
        below,
        Some(Collision { normal: Vec2::new(0, -1), overlap: 5, position: Vec2::new(3, -10) })
    );
}

#[test]
fn equal_overlap_resolves_on_y() {
    let collision = resolve_collision(aabb(10, 10, 0, 0), aabb(10, 10, 5, 5));
    assert_eq!(
        collision,
        Some(Collision { normal: Vec2::new(0, 1), overlap: 15, position: Vec2::new(5, 10) })
    );
    let collision = resolve_collision(aabb(10, 10, 0, 0), aabb(10, 10, 5, -5));
    assert_eq!(
        collision,
        Some(Collision { normal: Vec2::new(0, -1), overlap: 15, position: Vec2::new(5, -10) })
    );
}

#[test]
fn overlap_one_apart_resolves_on_the_smaller() {
    let on_x = resolve_collision(aabb(10, 10, 0, 0), aabb(10, 10, 6, 5)).unwrap();
    assert_eq!(on_x.normal, Vec2::new(1, 0));
    assert_eq!(on_x.overlap, 14);
    let on_y = resolve_collision(aabb(10, 10, 0, 0), aabb(10, 10, 5, 6)).unwrap();
    assert_eq!(on_y.normal, Vec2::new(0, 1));
    assert_eq!(on_y.overlap, 14);
}

#[test]
fn coincident_centres_give_a_zero_normal() {
    let collision = resolve_collision(aabb(10, 10, 7, 9), aabb(10, 10, 7, 9));
    assert_eq!(
        collision,
        Some(Collision { normal: Vec2::new(0, 0), overlap: 20, position: Vec2::new(7, 9) })
    );
}

#[test]
fn centres_level_on_the_separation_axis_give_a_zero_normal() {
    let collision = resolve_collision(aabb(10, 10, 0, 0), aabb(10, 30, 0, 5));
    assert_eq!(
        collision,
        Some(Collision { normal: Vec2::new(0, 0), overlap: 20, position: Vec2::new(0, 5) })
    );
}

#[test]
fn contact_point_lies_on_the_source_face() {
    let collision = resolve_collision(aabb(4, 6, 10, 20), aabb(3, 2, 15, 21));
    assert_eq!(
        collision,
        Some(Collision { normal: Vec2::new(1, 0), overlap: 2, position: Vec2::new(14, 21) })
    );
    let collision = resolve_collision(aabb(4, 6, 10, 20), aabb(3, 9, 12, 6));
    assert_eq!(
        collision,
        Some(Collision { normal: Vec2::new(0, -1), overlap: 1, position: Vec2::new(12, 14) })
    );
}

#[test]
fn source_and_target_are_not_interchangeable() {
    let forward = resolve_collision(aabb(4, 6, 10, 20), aabb(3, 2, 15, 21)).unwrap();
    let backward = resolve_collision(aabb(3, 2, 15, 21), aabb(4, 6, 10, 20)).unwrap();
    assert_eq!(forward.normal, Vec2::new(1, 0));
    assert_eq!(backward.normal, Vec2::new(-1, 0));
    assert_eq!(forward.overlap, backward.overlap);
    assert_eq!(backward.position, Vec2::new(12, 20));
}

#[test]
fn boxes_at_the_limit_of_reach_are_resolved() {
    let r: i64 = REACH_LIMIT;
    assert_eq!(r, 1i64 << 61);
    assert_eq!(resolve_collision(aabb(r, r, -r, -r), aabb(r, r, r, r)), None);
    assert_eq!(resolve_collision(aabb(-r, -r, -r, -r), aabb(-r, -r, r, r)), None);
    let collision = resolve_collision(aabb(r, r, r, r), aabb(r, r, r - 1, r - 2));
    assert_eq!(
        collision,
        Some(Collision {
            normal: Vec2::new(0, -1),
            overlap: 2 * r - 2,
            position: Vec2::new(r - 1, 0),
        })
    );
    let collision = resolve_collision(aabb(r, r, -r, -r), aabb(r, r, -r + 2, -r + 1));
    assert_eq!(
        collision,
        Some(Collision {
            normal: Vec2::new(1, 0),
            overlap: 2 * r - 2,
            position: Vec2::new(0, -r + 1),
        })
    );
}

#[test]
fn collisions_do_not_depend_on_the_unit() {
    let boxes = vec![
        (aabb(10, 10, 0, 0), aabb(10, 10, 15, 0)),
        (aabb(10, 10, 0, 0), aabb(10, 10, 5, 5)),
        (aabb(4, 6, 10, 20), aabb(3, 9, 12, 6)),
        (aabb(4, 6, 10, 20), aabb(3, 2, -15, 21)),
        (aabb(1, 1, 0, 0), aabb(1, 1, 2, 0)),
        (aabb(10, 10, 7, 9), aabb(10, 10, 7, 9)),
    ];
    for (source, target) in boxes {
        for factor in [1i64, 2, 10, 1000] {
            let finer = |b: Aabb| Aabb {
                half_extent: Vec2::new(b.half_extent.x * factor, b.half_extent.y * factor),
                center: Vec2::new(b.center.x * factor, b.center.y * factor),
            };
            let expected = resolve_collision(source, target).map(|c| Collision {
                normal: c.normal,
                overlap: c.overlap * factor,
                position: Vec2::new(c.position.x * factor, c.position.y * factor),
            });
            assert_eq!(resolve_collision(finer(source), finer(target)), expected);
        }
    }
}
