//! The start of a game: where the ball, the paddles and the gutters are
//! put.

use crate::world::{
    Controller, Entity, Window, World, BALL_SPEED, GUTTER_HEIGHT, PADDLE_PADDING,
};
use vstd::prelude::*;

verus! {

/// Where the centre of the player's paddle is put: `PADDLE_PADDING` left of
/// the right side of the window. Half the width is rounded down.
pub open spec fn right_paddle_x(window: Window) -> int {
    window.width / 2 - PADDLE_PADDING
}

/// Where the centre of the machine's paddle is put: `PADDLE_PADDING` right
/// of the left side of the window.
pub open spec fn left_paddle_x(window: Window) -> int {
    -(window.width / 2) + PADDLE_PADDING
}

/// Where the centre of the upper gutter is put: half its height below the
/// top of the window. Half the height is rounded down.
pub open spec fn top_gutter_y(window: Window) -> int {
    window.height / 2 - GUTTER_HEIGHT / 2
}

/// Where the centre of the lower gutter is put: half its height above the
/// bottom of the window.
pub open spec fn bottom_gutter_y(window: Window) -> int {
    -(window.height / 2) + GUTTER_HEIGHT / 2
}

/// The entities after the paddles were put: with a window, the player's
/// paddle on the right and then the machine's on the left, both half way
/// up. Without a window nothing is put.
pub open spec fn with_paddles(entities: Seq<Entity>, window: Option<Window>) -> Seq<Entity> {
    match window {
        Some(w) => entities.push(
            Entity::paddle(Controller::Player, right_paddle_x(w) as i32, 0),
        ).push(Entity::paddle(Controller::Ai, left_paddle_x(w) as i32, 0)),
        None => entities,
    }
}

/// The entities after the gutters were put: with a window, the upper one
/// and then the lower one, both as wide as the window and centred
/// sideways. Without a window nothing is put.
pub open spec fn with_gutters(entities: Seq<Entity>, window: Option<Window>) -> Seq<Entity> {
    match window {
        Some(w) => entities.push(Entity::gutter(0, top_gutter_y(w) as i32, w.width)).push(
            Entity::gutter(0, bottom_gutter_y(w) as i32, w.width),
        ),
        None => entities,
    }
}

/// Puts the ball in the middle of the playfield, on its way to the right.
pub fn spawn_ball(world: &mut World)
    ensures
        final(world)@ == old(world)@.push(Entity::ball(BALL_SPEED, 0)),
{
    world.entities.push(Entity::ball(BALL_SPEED, 0));
}

/// Puts the two paddles, if there is a window to put them in.
pub fn spawn_paddles(world: &mut World, window: Option<Window>)
    ensures
        final(world)@ == with_paddles(old(world)@, window),
{
    if let Some(w) = window {
        let half: i32 = (w.width / 2) as i32;
        world.entities.push(Entity::paddle(Controller::Player, half - PADDLE_PADDING, 0));
        world.entities.push(Entity::paddle(Controller::Ai, -half + PADDLE_PADDING, 0));
    }
}

/// Puts the two gutters, if there is a window to put them in.
pub fn spawn_gutters(world: &mut World, window: Option<Window>)
    ensures
        final(world)@ == with_gutters(old(world)@, window),
{
    if let Some(w) = window {
        let half: i32 = (w.height / 2) as i32;
        let inset: i32 = (GUTTER_HEIGHT / 2) as i32;
        world.entities.push(Entity::gutter(0, half - inset, w.width));
        world.entities.push(Entity::gutter(0, -half + inset, w.width));
    }
}

} // verus!
