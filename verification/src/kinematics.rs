//! Motion: the ball follows its velocity, the player's paddle follows the
//! keys, and every paddle stays between the gutters.

use crate::geometry::abs;
use crate::world::{
    fits_i32, keeps_roles_and_shapes, single, Controller, Entity, IVec2, Role, Window, World,
    GUTTER_HEIGHT, PADDLE_HEIGHT, PADDLE_SPEED,
};
use vstd::prelude::*;

verus! {

/// `e` one tick later: its position has moved by its velocity. Where the
/// new position would lie outside the coordinates that an entity can have,
/// `e` stays where it is.
pub open spec fn advanced(e: Entity) -> Entity {
    let x = e.position.x + e.velocity.x;
    let y = e.position.y + e.velocity.y;
    if fits_i32(x) && fits_i32(y) {
        Entity { position: IVec2 { x: x as i32, y: y as i32 }, ..e }
    } else {
        e
    }
}

/// The entities after the ball has moved: with exactly one ball, that ball
/// is `advanced`; nothing else changes.
pub open spec fn after_move_ball(entities: Seq<Entity>) -> Seq<Entity> {
    match single(entities, Role::Ball) {
        Some(i) => entities.update(i, advanced(entities[i])),
        None => entities,
    }
}

/// The vertical velocity that the keys ask for: up where the up key is
/// down, whatever the other key does; else down where the down key is
/// down; else none.
pub open spec fn key_velocity(up: bool, down: bool) -> i32 {
    if up {
        1i32
    } else if down {
        -1i32
    } else {
        0i32
    }
}

/// `e` with the vertical velocity that the keys ask for.
pub open spec fn steered(e: Entity, up: bool, down: bool) -> Entity {
    Entity { velocity: IVec2 { x: e.velocity.x, y: key_velocity(up, down) }, ..e }
}

/// The entities after the keys were read: with exactly one paddle of the
/// player, that paddle is `steered`; nothing else changes.
pub open spec fn after_player_input(entities: Seq<Entity>, up: bool, down: bool) -> Seq<Entity> {
    match single(entities, Role::Paddle(Controller::Player)) {
        Some(i) => entities.update(i, steered(entities[i], up, down)),
        None => entities,
    }
}

/// Twice the distance from the middle of the window that the centre of a
/// paddle may have at most: the height of the window less both gutters and
/// one paddle. It is negative where the window is too low for a paddle.
pub open spec fn paddle_reach(window: Window) -> int {
    window.height - 2 * GUTTER_HEIGHT - PADDLE_HEIGHT
}

/// Whether a paddle whose centre is at height `y` lies between the gutters:
/// `y` is at most half the height of the window, less a gutter and half a
/// paddle, away from the middle. At that distance the paddle touches the
/// gutter.
pub open spec fn within_reach(y: int, window: Window) -> bool {
    2 * abs(y) <= paddle_reach(window)
}

/// The paddle `e` one tick later: its position has moved by its velocity
/// times `PADDLE_SPEED`, if that leaves it between the gutters and on the
/// playfield's coordinates. Else the move is dropped and `e` stays where it
/// is.
pub open spec fn paddle_advanced(e: Entity, window: Window) -> Entity {
    let x = e.position.x + e.velocity.x * PADDLE_SPEED;
    let y = e.position.y + e.velocity.y * PADDLE_SPEED;
    if within_reach(y, window) && fits_i32(x) {
        Entity { position: IVec2 { x: x as i32, y: y as i32 }, ..e }
    } else {
        e
    }
}

/// The entities after the paddles have moved: with a window, every paddle
/// is `paddle_advanced`; nothing else changes. Without a window nothing
/// moves.
pub open spec fn after_move_paddles(entities: Seq<Entity>, window: Option<Window>) -> Seq<
    Entity,
> {
    match window {
        Some(w) => Seq::new(
            entities.len(),
            |i: int|
                if entities[i].role is Paddle {
                    paddle_advanced(entities[i], w)
                } else {
                    entities[i]
                },
        ),
        None => entities,
    }
}

fn advance(e: Entity) -> (moved: Entity)
    ensures
        moved == advanced(e),
{
    let x: i64 = e.position.x as i64 + e.velocity.x as i64;
    let y: i64 = e.position.y as i64 + e.velocity.y as i64;
    if i32::MIN as i64 <= x && x <= i32::MAX as i64 && i32::MIN as i64 <= y && y <= i32::MAX as i64
    {
        Entity { position: IVec2::new(x as i32, y as i32), ..e }
    } else {
        e
    }
}

fn advance_paddle(e: Entity, window: Window) -> (moved: Entity)
    ensures
        moved == paddle_advanced(e, window),
{
    let x: i64 = e.position.x as i64 + e.velocity.x as i64 * PADDLE_SPEED as i64;
    let y: i64 = e.position.y as i64 + e.velocity.y as i64 * PADDLE_SPEED as i64;
    let reach: i64 = window.height as i64 - 2 * GUTTER_HEIGHT as i64 - PADDLE_HEIGHT as i64;
    let height: i64 = if y < 0 { -y } else { y };
    if 2 * height <= reach && i32::MIN as i64 <= x && x <= i32::MAX as i64 {
        Entity { position: IVec2::new(x as i32, y as i32), ..e }
    } else {
        e
    }
}

/// Moves the ball by its velocity. With no ball in the world, or with
/// several, nothing happens.
pub fn move_ball(world: &mut World)
    ensures
        final(world)@ == after_move_ball(old(world)@),
        keeps_roles_and_shapes(old(world)@, final(world)@),
{
    if let Some(b) = world.single(Role::Ball) {
        let ball = world.entities[b];
        world.entities.set(b, advance(ball));
    }
}

/// Sets the vertical velocity of the player's paddle from the keys: `up`
/// and `down` say whether the up key and the down key are held down. With
/// no paddle of the player in the world, or with several, nothing happens.
pub fn handle_player_input(world: &mut World, up: bool, down: bool)
    ensures
        final(world)@ == after_player_input(old(world)@, up, down),
        keeps_roles_and_shapes(old(world)@, final(world)@),
{
    if let Some(p) = world.single(Role::Paddle(Controller::Player)) {
        let paddle = world.entities[p];
        let y: i32 = if up {
            1
        } else if down {
            -1
        } else {
            0
        };
        world.entities.set(p, Entity { velocity: IVec2::new(paddle.velocity.x, y), ..paddle });
    }
}

/// Moves every paddle by its velocity, but none onto a gutter: a move that
/// would take the centre of a paddle out of the reach that `window` leaves
/// is dropped. Without a window nothing moves.
pub fn move_paddles(world: &mut World, window: Option<Window>)
    ensures
        final(world)@ == after_move_paddles(old(world)@, window),
        keeps_roles_and_shapes(old(world)@, final(world)@),
{
    let Some(w) = window else {
        return ;
    };
    let mut i: usize = 0;
    while i < world.entities.len()
        invariant
            i <= world.entities.len(),
            world@.len() == old(world)@.len(),
            forall|k: int|
                0 <= k < i ==> world@[k] == after_move_paddles(old(world)@, Some(w))[k],
            forall|k: int| i <= k < world@.len() ==> world@[k] == old(world)@[k],
        decreases world.entities.len() - i,
    {
        let e = world.entities[i];
        if let Role::Paddle(_) = e.role {
            world.entities.set(i, advance_paddle(e, w));
        }
        i += 1;
    }
    assert(world@ =~= after_move_paddles(old(world)@, window));
}

/// One move keeps a paddle between the gutters, whatever its velocity.
pub proof fn lemma_paddle_stays_within_reach(e: Entity, window: Window)
    requires
        within_reach(e.position.y as int, window),
    ensures
        within_reach(paddle_advanced(e, window).position.y as int, window),
{
}

} // verus!
