use pong::spawn::{spawn_ball, spawn_gutters, spawn_paddles};
use pong::world::{
    Controller, Entity, IVec2, Role, Shape, Window, World, AI_SPEED, BALL_SIZE, BALL_SPEED,
    GUTTER_HEIGHT, PADDLE_HEIGHT, PADDLE_PADDING, PADDLE_SPEED, PADDLE_WIDTH,
};

fn window(width: u32, height: u32) -> Option<Window> {
    Some(Window { width, height })
}

#[test]
fn the_measures_of_the_game() {
    assert_eq!(BALL_SIZE, 5);
    assert_eq!(BALL_SPEED, 4);
    assert_eq!(PADDLE_SPEED, 1);
    assert_eq!(PADDLE_WIDTH, 10);
    assert_eq!(PADDLE_HEIGHT, 50);
    assert_eq!(PADDLE_PADDING, 50);
    assert_eq!(GUTTER_HEIGHT, 20);
    assert_eq!(AI_SPEED, 4);
}

#[test]
fn a_new_world_is_empty() {
    assert!(World::new().entities.is_empty());
}

#[test]
fn a_ball_starts_in_the_middle() {
    assert_eq!(
        Entity::ball(-3, 9),
        Entity {
            role: Role::Ball,
            position: IVec2 { x: 0, y: 0 },
            velocity: IVec2 { x: -3, y: 9 },
            shape: Shape { width: 5, height: 5 },
        }
    );
}

#[test]
fn a_paddle_starts_at_rest() {
    assert_eq!(
        Entity::paddle(Controller::Ai, -590, 12),
        Entity {
            role: Role::Paddle(Controller::Ai),
            position: IVec2 { x: -590, y: 12 },
            velocity: IVec2 { x: 0, y: 0 },
            shape: Shape { width: 10, height: 50 },
        }
    );
    assert_eq!(Entity::paddle(Controller::Player, 1, 2).role, Role::Paddle(Controller::Player));
}

#[test]
fn a_gutter_has_the_width_it_is_given() {
    assert_eq!(
        Entity::gutter(3, -350, 1280),
        Entity {
            role: Role::Gutter,
            position: IVec2 { x: 3, y: -350 },
            velocity: IVec2 { x: 0, y: 0 },
            shape: Shape { width: 1280, height: 20 },
        }
    );
}

#[test]
fn the_ball_is_put_on_its_way_to_the_right() {
    let mut world = World::new();
    spawn_ball(&mut world);
    assert_eq!(world.entities, vec![Entity::ball(4, 0)]);
}

#[test]
fn the_paddles_are_put_fifty_from_the_sides() {
    let mut world = World::new();
    spawn_paddles(&mut world, window(1280, 720));
    assert_eq!(
        world.entities,
        vec![
            Entity::paddle(Controller::Player, 590, 0),
            Entity::paddle(Controller::Ai, -590, 0),
        ]
    );
}

#[test]
fn the_paddles_of_a_window_of_odd_width() {
    let mut world = World::new();
    spawn_paddles(&mut world, window(1281, 720));
    assert_eq!(world.entities[0].position, IVec2::new(590, 0));
    assert_eq!(world.entities[1].position, IVec2::new(-590, 0));
}

#[test]
fn the_paddles_of_the_widest_and_the_narrowest_window() {
    let mut world = World::new();
    spawn_paddles(&mut world, window(u32::MAX, 720));
    assert_eq!(world.entities[0].position, IVec2::new(i32::MAX - 50, 0));
    assert_eq!(world.entities[1].position, IVec2::new(-i32::MAX + 50, 0));
    let mut world = World::new();
    spawn_paddles(&mut world, window(0, 0));
    assert_eq!(world.entities[0].position, IVec2::new(-50, 0));
    assert_eq!(world.entities[1].position, IVec2::new(50, 0));
}

#[test]
fn the_gutters_are_put_along_the_top_and_the_bottom() {
    let mut world = World::new();
    spawn_gutters(&mut world, window(1280, 720));
    assert_eq!(
        world.entities,
        vec![Entity::gutter(0, 350, 1280), Entity::gutter(0, -350, 1280)]
    );
}

#[test]
fn the_gutters_of_the_highest_and_the_lowest_window() {
    let mut world = World::new();
    spawn_gutters(&mut world, window(u32::MAX, u32::MAX));
    assert_eq!(world.entities[0], Entity::gutter(0, i32::MAX - 10, u32::MAX));
    assert_eq!(world.entities[1], Entity::gutter(0, -i32::MAX + 10, u32::MAX));
    let mut world = World::new();
    spawn_gutters(&mut world, window(0, 721));
    assert_eq!(world.entities[0], Entity::gutter(0, 350, 0));
    assert_eq!(world.entities[1], Entity::gutter(0, -350, 0));
}

#[test]
fn nothing_is_put_without_a_window_but_the_ball() {
    let mut world = World::new();
    spawn_paddles(&mut world, None);
    spawn_gutters(&mut world, None);
    assert!(world.entities.is_empty());
    spawn_ball(&mut world);
    assert_eq!(world.entities.len(), 1);
}

#[test]
fn what_is_put_comes_after_what_is_there() {
    let mut world = World::new();
    spawn_gutters(&mut world, window(1280, 720));
    spawn_ball(&mut world);
    spawn_paddles(&mut world, window(1280, 720));
    assert_eq!(
        world.entities,
        vec![
            Entity::gutter(0, 350, 1280),
            Entity::gutter(0, -350, 1280),
            Entity::ball(4, 0),
            Entity::paddle(Controller::Player, 590, 0),
            Entity::paddle(Controller::Ai, -590, 0),
        ]
    );
}

#[test]
fn the_only_one_of_a_kind_is_found() {
    let mut world = World::new();
    assert_eq!(world.single(Role::Ball), None);
    spawn_gutters(&mut world, window(1280, 720));
    spawn_ball(&mut world);
    spawn_paddles(&mut world, window(1280, 720));
    assert_eq!(world.single(Role::Ball), Some(2));
    assert_eq!(world.single(Role::Paddle(Controller::Player)), Some(3));
    assert_eq!(world.single(Role::Paddle(Controller::Ai)), Some(4));
    assert_eq!(world.single(Role::Gutter), None);
    spawn_ball(&mut world);
    assert_eq!(world.single(Role::Ball), None);
    assert_eq!(world.single(Role::Paddle(Controller::Ai)), Some(4));
}
