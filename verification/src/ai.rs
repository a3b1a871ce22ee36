//! The machine opponent: its paddle runs after the ball.

use crate::world::{
    keeps_roles_and_shapes, single, Controller, Entity, IVec2, Role, World, AI_SPEED,
};
use vstd::prelude::*;

verus! {

/// The sign of `v`: 1 above zero, -1 below zero, and 0 at zero.
pub open spec fn signum(v: int) -> int {
    if v > 0 {
        1
    } else if v < 0 {
        -1
    } else {
        0
    }
}

/// The vertical velocity of a paddle at height `paddle_y` that runs after a
/// ball at height `ball_y`: `AI_SPEED` towards the ball, and none where
/// both are at one height.
pub open spec fn chase_velocity(paddle_y: int, ball_y: int) -> int {
    signum(ball_y - paddle_y) * AI_SPEED
}

/// `paddle` with the vertical velocity that takes it towards `ball`.
pub open spec fn chasing(paddle: Entity, ball: Entity) -> Entity {
    Entity {
        velocity: IVec2 {
            x: paddle.velocity.x,
            y: chase_velocity(paddle.position.y as int, ball.position.y as int) as i32,
        },
        ..paddle
    }
}

/// The entities after the machine has steered: with exactly one paddle of
/// the machine and exactly one ball, that paddle is `chasing` the ball;
/// nothing else changes.
pub open spec fn after_move_ai(entities: Seq<Entity>) -> Seq<Entity> {
    match (single(entities, Role::Paddle(Controller::Ai)), single(entities, Role::Ball)) {
        (Some(p), Some(b)) => entities.update(p, chasing(entities[p], entities[b])),
        _ => entities,
    }
}

/// Sets the vertical velocity of the machine's paddle towards the ball.
/// Nothing happens unless the world holds exactly one paddle of the machine
/// and exactly one ball.
pub fn move_ai(world: &mut World)
    ensures
        final(world)@ == after_move_ai(old(world)@),
        keeps_roles_and_shapes(old(world)@, final(world)@),
{
    if let Some(p) = world.single(Role::Paddle(Controller::Ai)) {
        if let Some(b) = world.single(Role::Ball) {
            let paddle = world.entities[p];
            let ball = world.entities[b];
            let y: i32 = if ball.position.y > paddle.position.y {
                AI_SPEED
            } else if ball.position.y < paddle.position.y {
                -AI_SPEED
            } else {
                0
            };
            world.entities.set(p, Entity { velocity: IVec2::new(paddle.velocity.x, y), ..paddle });
        }
    }
}

/// Where ball and paddle are at different heights, the paddle's new
/// vertical velocity has the sign of the way from the paddle to the ball.
pub proof fn lemma_ai_follows_ball(paddle: Entity, ball: Entity)
    requires
        ball.position.y != paddle.position.y,
    ensures
        signum(chasing(paddle, ball).velocity.y as int) == signum(
            ball.position.y - paddle.position.y,
        ),
        chasing(paddle, ball).velocity.y != 0,
{
}

/// After the machine has steered in a world with one paddle of its own and
/// one ball at another height, that paddle's vertical velocity has the sign
/// of the way from the paddle to the ball.
pub proof fn lemma_ai_follows_ball_in_world(entities: Seq<Entity>, p: int, b: int)
    requires
        single(entities, Role::Paddle(Controller::Ai)) == Some(p),
        single(entities, Role::Ball) == Some(b),
        entities[b].position.y != entities[p].position.y,
    ensures
        signum(after_move_ai(entities)[p].velocity.y as int) == signum(
            entities[b].position.y - entities[p].position.y,
        ),
{
}

} // verus!
