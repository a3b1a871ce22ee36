use pong::collision::{collide_with_side, handle_collisions, reflect, Collision};
use pong::geometry::{Aabb2d, BoundingCircle, Point};
use pong::world::{Controller, Entity, IVec2, Role, Shape, World};

fn circle(x: i64, y: i64, radius: u64) -> BoundingCircle {
    BoundingCircle::new(Point::new(x, y), radius)
}

fn square(x: i64, y: i64, half: u64) -> Aabb2d {
    Aabb2d::new(Point::new(x, y), half, half)
}

fn ball_at(x: i32, y: i32, vx: i32, vy: i32, radius: u32) -> Entity {
    Entity {
        role: Role::Ball,
        position: IVec2::new(x, y),
        velocity: IVec2::new(vx, vy),
        shape: Shape { width: radius, height: radius },
    }
}

fn block(x: i32, y: i32, width: u32, height: u32) -> Entity {
    Entity {
        role: Role::Gutter,
        position: IVec2::new(x, y),
        velocity: IVec2::new(0, 0),
        shape: Shape { width, height },
    }
}

#[test]
fn closest_point_is_the_point_itself_inside_the_box() {
    let wall = Aabb2d::new(Point::new(10, -10), 4, 2);
    assert_eq!(wall.closest_point(Point::new(12, -11)), Point::new(12, -11));
    assert_eq!(wall.closest_point(Point::new(14, -8)), Point::new(14, -8));
}

#[test]
fn closest_point_lies_on_the_border_for_a_point_outside() {
    let wall = Aabb2d::new(Point::new(10, -10), 4, 2);
    assert_eq!(wall.closest_point(Point::new(100, -10)), Point::new(14, -10));
    assert_eq!(wall.closest_point(Point::new(-100, -100)), Point::new(6, -12));
    assert_eq!(wall.closest_point(Point::new(11, 50)), Point::new(11, -8));
}

#[test]
fn closest_point_stays_in_range_at_the_ends_of_the_coordinates() {
    let wall = Aabb2d::new(Point::new(i64::MAX, i64::MIN), u64::MAX, u64::MAX);
    assert_eq!(wall.closest_point(Point::new(i64::MIN, i64::MAX)), Point::new(i64::MIN, i64::MAX));
    let thin = Aabb2d::new(Point::new(i64::MAX, i64::MIN), 0, 0);
    assert_eq!(thin.closest_point(Point::new(0, 0)), Point::new(i64::MAX, i64::MIN));
}

#[test]
fn offset_runs_from_the_box_to_the_centre() {
    let ball = circle(0, 0, 5);
    assert_eq!(ball.offset(&Aabb2d::new(Point::new(7, 0), 3, 10)), (-4, 0));
    assert_eq!(ball.offset(&Aabb2d::new(Point::new(-7, -20), 3, 10)), (4, 10));
    assert_eq!(ball.offset(&square(1, 1, 3)), (0, 0));
}

#[test]
fn intersects_counts_a_touch() {
    let ball = circle(0, 0, 5);
    assert!(ball.intersects(&square(8, 0, 3)));
    assert!(!ball.intersects(&square(9, 0, 3)));
    assert!(ball.intersects(&square(4, 5, 1)));
    assert!(!ball.intersects(&square(5, 5, 1)));
}

#[test]
fn apart_means_no_collision() {
    let ball = circle(0, 0, 5);
    assert_eq!(collide_with_side(ball, square(20, 0, 3)), None);
    assert_eq!(collide_with_side(ball, square(-20, 0, 3)), None);
    assert_eq!(collide_with_side(ball, square(0, 20, 3)), None);
    assert_eq!(collide_with_side(ball, square(0, -20, 3)), None);
    assert_eq!(collide_with_side(ball, square(9, 0, 3)), None);
}

#[test]
fn apart_at_a_corner_means_no_collision() {
    // The box begins at (4, 4): 4 * 4 + 4 * 4 is more than 5 * 5.
    assert_eq!(collide_with_side(circle(0, 0, 5), square(5, 5, 1)), None);
    // Both offsets are within the radius, the distance is not.
    assert_eq!(collide_with_side(circle(0, 0, 5), square(7, 7, 3)), None);
}

#[test]
fn overlap_names_the_side_of_the_box() {
    let wall = square(0, 0, 10);
    assert_eq!(collide_with_side(circle(-12, 0, 5), wall), Some(Collision::Left));
    assert_eq!(collide_with_side(circle(12, 0, 5), wall), Some(Collision::Right));
    assert_eq!(collide_with_side(circle(0, 12, 5), wall), Some(Collision::Top));
    assert_eq!(collide_with_side(circle(0, -12, 5), wall), Some(Collision::Bottom));
}

#[test]
fn touching_an_edge_is_a_collision_on_that_edge() {
    let wall = square(0, 0, 3);
    assert_eq!(collide_with_side(circle(-8, 0, 5), wall), Some(Collision::Left));
    assert_eq!(collide_with_side(circle(8, 2, 5), wall), Some(Collision::Right));
    assert_eq!(collide_with_side(circle(-1, 8, 5), wall), Some(Collision::Top));
    assert_eq!(collide_with_side(circle(3, -8, 5), wall), Some(Collision::Bottom));
    assert_eq!(collide_with_side(circle(-9, 0, 5), wall), None);
    assert_eq!(collide_with_side(circle(0, 9, 5), wall), None);
}

#[test]
fn touching_a_corner_goes_by_the_longer_offset() {
    let wall = square(0, 0, 1);
    // Offsets (3, 4), (4, 3), (-4, 3) and (3, -4) at distance 5.
    assert_eq!(collide_with_side(circle(4, 5, 5), wall), Some(Collision::Top));
    assert_eq!(collide_with_side(circle(5, 4, 5), wall), Some(Collision::Right));
    assert_eq!(collide_with_side(circle(-5, 4, 5), wall), Some(Collision::Left));
    assert_eq!(collide_with_side(circle(4, -5, 5), wall), Some(Collision::Bottom));
}

#[test]
fn equal_offsets_strike_the_vertical_axis() {
    let wall = square(0, 0, 1);
    assert_eq!(collide_with_side(circle(3, 3, 5), wall), Some(Collision::Top));
    assert_eq!(collide_with_side(circle(-3, 3, 5), wall), Some(Collision::Top));
    assert_eq!(collide_with_side(circle(3, -3, 5), wall), Some(Collision::Bottom));
    assert_eq!(collide_with_side(circle(-3, -3, 5), wall), Some(Collision::Bottom));
}

#[test]
fn a_centre_inside_the_box_strikes_the_bottom() {
    let wall = square(0, 0, 10);
    assert_eq!(collide_with_side(circle(0, 0, 5), wall), Some(Collision::Bottom));
    assert_eq!(collide_with_side(circle(-10, 10, 5), wall), Some(Collision::Bottom));
    assert_eq!(collide_with_side(circle(4, -7, 0), wall), Some(Collision::Bottom));
}

#[test]
fn a_point_sized_ball_collides_on_the_border_only() {
    let wall = square(0, 0, 10);
    assert_eq!(collide_with_side(circle(-10, 0, 0), wall), Some(Collision::Bottom));
    assert_eq!(collide_with_side(circle(-11, 0, 0), wall), None);
    assert_eq!(collide_with_side(circle(0, 11, 0), wall), None);
}

#[test]
fn collisions_at_the_ends_of_the_coordinates() {
    let far_left = circle(i64::MIN, 0, u64::MAX);
    let far_right = Aabb2d::new(Point::new(i64::MAX, 0), 0, 0);
    // The offset is -(2^64 - 1), as long as the radius.
    assert_eq!(collide_with_side(far_left, far_right), Some(Collision::Left));
    let shorter = circle(i64::MIN, 0, u64::MAX - 1);
    assert_eq!(collide_with_side(shorter, far_right), None);
    let corner = circle(i64::MIN, i64::MIN, u64::MAX);
    let opposite = Aabb2d::new(Point::new(i64::MAX, i64::MAX), 0, 0);
    assert_eq!(collide_with_side(corner, opposite), None);
    let all = Aabb2d::new(Point::new(0, 0), u64::MAX, u64::MAX);
    assert_eq!(collide_with_side(corner, all), Some(Collision::Bottom));
}

#[test]
fn reflect_turns_the_struck_axis() {
    let mut v = IVec2::new(4, -3);
    reflect(&mut v, Collision::Left);
    assert_eq!(v, IVec2::new(-4, -3));
    let mut v = IVec2::new(4, -3);
    reflect(&mut v, Collision::Right);
    assert_eq!(v, IVec2::new(-4, -3));
    let mut v = IVec2::new(4, -3);
    reflect(&mut v, Collision::Top);
    assert_eq!(v, IVec2::new(4, 3));
    let mut v = IVec2::new(4, -3);
    reflect(&mut v, Collision::Bottom);
    assert_eq!(v, IVec2::new(4, 3));
}

#[test]
fn reflect_twice_restores_the_velocity() {
    let sides = [Collision::Left, Collision::Right, Collision::Top, Collision::Bottom];
    for first in sides {
        for second in sides {
            let horizontal = |c: Collision| matches!(c, Collision::Left | Collision::Right);
            if horizontal(first) == horizontal(second) {
                let mut v = IVec2::new(4, -3);
                reflect(&mut v, first);
                reflect(&mut v, second);
                assert_eq!(v, IVec2::new(4, -3));
            }
        }
    }
}

#[test]
fn reflect_on_both_axes_turns_both() {
    let mut v = IVec2::new(4, -3);
    reflect(&mut v, Collision::Left);
    reflect(&mut v, Collision::Top);
    assert_eq!(v, IVec2::new(-4, 3));
    let mut w = IVec2::new(4, -3);
    reflect(&mut w, Collision::Top);
    reflect(&mut w, Collision::Left);
    assert_eq!(w, v);
}

#[test]
fn reflect_leaves_the_least_value_alone() {
    let mut v = IVec2::new(i32::MIN, i32::MAX);
    reflect(&mut v, Collision::Left);
    assert_eq!(v, IVec2::new(i32::MIN, i32::MAX));
    reflect(&mut v, Collision::Top);
    assert_eq!(v, IVec2::new(i32::MIN, -i32::MAX));
    reflect(&mut v, Collision::Bottom);
    assert_eq!(v, IVec2::new(i32::MIN, i32::MAX));
}

#[test]
fn bounding_shapes_are_on_the_grid_of_half_units() {
    let ball = ball_at(3, -4, 0, 0, 5);
    assert_eq!(ball.bounding_circle(), circle(6, -8, 10));
    let paddle = Entity::paddle(Controller::Ai, -590, 7);
    assert_eq!(paddle.bounding_box(), Aabb2d::new(Point::new(-1180, 14), 10, 50));
    let widest = block(i32::MIN, i32::MAX, u32::MAX, u32::MAX);
    assert_eq!(
        widest.bounding_box(),
        Aabb2d::new(Point::new(-4294967296, 4294967294), 4294967295, 4294967295)
    );
    let largest = ball_at(i32::MAX, i32::MIN, 0, 0, u32::MAX);
    assert_eq!(largest.bounding_circle(), circle(4294967294, -4294967296, 8589934590));
}

#[test]
fn the_ball_bounces_off_a_gutter() {
    let mut world = World::new();
    world.entities.push(ball_at(0, 336, 4, 4, 5));
    world.entities.push(Entity::gutter(0, 350, 1280));
    handle_collisions(&mut world);
    assert_eq!(world.entities[0].velocity, IVec2::new(4, -4));
    assert_eq!(world.entities[0].position, IVec2::new(0, 336));
    assert_eq!(world.entities[1], Entity::gutter(0, 350, 1280));
}

#[test]
fn the_ball_bounces_off_a_paddle() {
    let mut world = World::new();
    world.entities.push(ball_at(580, 0, 4, 0, 5));
    world.entities.push(Entity::paddle(Controller::Player, 590, 0));
    handle_collisions(&mut world);
    assert_eq!(world.entities[0].velocity, IVec2::new(-4, 0));
    let mut world = World::new();
    world.entities.push(Entity::paddle(Controller::Ai, -590, 0));
    world.entities.push(ball_at(-580, 20, -4, 4, 5));
    handle_collisions(&mut world);
    assert_eq!(world.entities[1].velocity, IVec2::new(4, 4));
}

#[test]
fn the_ball_passes_what_it_does_not_touch() {
    let mut world = World::new();
    world.entities.push(ball_at(579, 0, 4, 0, 5));
    world.entities.push(Entity::paddle(Controller::Player, 590, 0));
    world.entities.push(Entity::gutter(0, 350, 1280));
    let before = world.entities.clone();
    handle_collisions(&mut world);
    assert_eq!(world.entities, before);
}

#[test]
fn two_strikes_along_one_axis_undo_each_other() {
    let mut world = World::new();
    world.entities.push(block(0, 10, 100, 10));
    world.entities.push(ball_at(0, 0, 3, 4, 5));
    world.entities.push(block(0, -10, 100, 10));
    handle_collisions(&mut world);
    assert_eq!(world.entities[1].velocity, IVec2::new(3, 4));
}

#[test]
fn strikes_along_both_axes_turn_both() {
    let mut world = World::new();
    world.entities.push(ball_at(0, 0, 3, 4, 5));
    world.entities.push(block(0, 10, 100, 10));
    world.entities.push(block(10, 0, 10, 4));
    handle_collisions(&mut world);
    assert_eq!(world.entities[0].velocity, IVec2::new(-3, -4));
}

#[test]
fn half_of_an_odd_extent_is_not_rounded() {
    // The box reaches 2.5 to each side: its corner is 0.5 away from the
    // centre of the ball along both axes, within the radius of 1.
    let mut world = World::new();
    world.entities.push(ball_at(3, 3, 2, 2, 1));
    world.entities.push(block(0, 0, 5, 5));
    handle_collisions(&mut world);
    assert_eq!(world.entities[0].velocity, IVec2::new(2, -2));
    // One unit further out the corner is 1.5 away along both axes.
    let mut world = World::new();
    world.entities.push(ball_at(4, 4, 2, 2, 1));
    world.entities.push(block(0, 0, 5, 5));
    handle_collisions(&mut world);
    assert_eq!(world.entities[0].velocity, IVec2::new(2, 2));
    // Beside the box the gap is 0.5, and 1.5 with a box of width 3.
    let mut world = World::new();
    world.entities.push(ball_at(3, 0, 2, 2, 1));
    world.entities.push(block(0, 0, 5, 5));
    world.entities.push(block(0, 0, 3, 5));
    handle_collisions(&mut world);
    assert_eq!(world.entities[0].velocity, IVec2::new(-2, 2));
}

#[test]
fn collisions_need_exactly_one_ball() {
    let mut world = World::new();
    world.entities.push(Entity::gutter(0, 0, 1280));
    let before = world.entities.clone();
    handle_collisions(&mut world);
    assert_eq!(world.entities, before);
    let mut world = World::new();
    world.entities.push(ball_at(0, 0, 4, 4, 5));
    world.entities.push(Entity::gutter(0, 0, 1280));
    world.entities.push(ball_at(0, 0, 4, 4, 5));
    let before = world.entities.clone();
    handle_collisions(&mut world);
    assert_eq!(world.entities, before);
}

#[test]
fn collisions_in_an_empty_world_do_nothing() {
    let mut world = World::new();
    handle_collisions(&mut world);
    assert!(world.entities.is_empty());
}

#[test]
fn the_side_does_not_depend_on_the_unit() {
    for x in -9i64..=9 {
        for y in -9i64..=9 {
            for radius in 0u64..=4 {
                let small =
                    collide_with_side(circle(x, y, radius), Aabb2d::new(Point::new(1, -1), 2, 3));
                let large = collide_with_side(
                    circle(2 * x, 2 * y, 2 * radius),
                    Aabb2d::new(Point::new(2, -2), 4, 6),
                );
                assert_eq!(small, large);
            }
        }
    }
}

#[test]
fn a_collision_means_a_common_point() {
    let wall = Aabb2d::new(Point::new(1, -1), 2, 3);
    for x in -9i64..=9 {
        for y in -9i64..=9 {
            for radius in 0u64..=4 {
                let mut common = false;
                for px in -1i64..=3 {
                    for py in -4i64..=2 {
                        let d = (px - x) * (px - x) + (py - y) * (py - y);
                        if d <= (radius * radius) as i64 {
                            common = true;
                        }
                    }
                }
                assert_eq!(collide_with_side(circle(x, y, radius), wall).is_some(), common);
            }
        }
    }
}

#[test]
fn no_point_of_the_box_is_nearer_than_the_closest() {
    let wall = Aabb2d::new(Point::new(1, -1), 2, 3);
    for x in -9i64..=9 {
        for y in -9i64..=9 {
            let closest = wall.closest_point(Point::new(x, y));
            let least = (closest.x - x) * (closest.x - x) + (closest.y - y) * (closest.y - y);
            for px in -1i64..=3 {
                for py in -4i64..=2 {
                    assert!(least <= (px - x) * (px - x) + (py - y) * (py - y));
                }
            }
            assert!(-1 <= closest.x && closest.x <= 3 && -4 <= closest.y && closest.y <= 2);
        }
    }
}

#[test]
fn the_order_of_the_obstacles_does_not_matter() {
    let obstacles = [
        block(0, 10, 100, 10),
        block(10, 0, 10, 4),
        block(0, -10, 100, 10),
        block(40, 40, 2, 2),
        block(-9, 1, 8, 3),
    ];
    let orders = [[0, 1, 2, 3, 4], [4, 3, 2, 1, 0], [2, 0, 4, 1, 3], [1, 4, 0, 3, 2]];
    for order in orders {
        for place in 0..=5 {
            let mut world = World::new();
            for (n, i) in order.iter().enumerate() {
                if n == place {
                    world.entities.push(ball_at(0, 0, 3, 4, 5));
                }
                world.entities.push(obstacles[*i]);
            }
            if place == 5 {
                world.entities.push(ball_at(0, 0, 3, 4, 5));
            }
            handle_collisions(&mut world);
            // Two strikes along each axis, and one obstacle out of reach.
            assert_eq!(world.entities[place].velocity, IVec2::new(3, 4));
            world.entities.push(block(0, 7, 1, 4));
            handle_collisions(&mut world);
            assert_eq!(world.entities[place].velocity, IVec2::new(3, -4));
        }
    }
}
