//! A whole tick: the steps of the game in their fixed order.

use crate::ai::{after_move_ai, move_ai, signum};
use crate::collision::{after_collisions, handle_collisions};
use crate::kinematics::{
    after_move_ball, after_move_paddles, after_player_input, handle_player_input, move_ball,
    move_paddles, within_reach,
};
use crate::scoring::{
    after_reset, after_update, decimal, detect_scoring, reset_ball, scoring, update_score,
    update_scoreboard, Score, Scoreboard, Scored,
};
use crate::world::{
    keeps_roles_and_shapes, lemma_keeping_chains, lemma_single_is_sound, lemma_singles_are_kept,
    single, Controller, Entity, Role, Window, World,
};
use vstd::prelude::*;

verus! {

/// The entities of a tick after everything has moved and the ball has
/// bounced, before the tick's point is looked for: first the ball moves,
/// then the keys steer the player's paddle, then the paddles move, then the
/// ball is tested against everything else.
pub open spec fn after_motion(
    entities: Seq<Entity>,
    window: Option<Window>,
    up: bool,
    down: bool,
) -> Seq<Entity> {
    after_collisions(
        after_move_paddles(after_player_input(after_move_ball(entities), up, down), window),
    )
}

/// The signals of a tick: the one that the place of the ball calls for
/// after it has moved and bounced, or none.
pub open spec fn signals(
    entities: Seq<Entity>,
    window: Option<Window>,
    up: bool,
    down: bool,
) -> Seq<Scored> {
    match scoring(after_motion(entities, window, up, down), window) {
        Some(signal) => seq![signal],
        None => Seq::empty(),
    }
}

/// The entities of a tick after its signals were answered: after motion
/// and collisions, the ball is served again if a point was scored.
pub open spec fn after_serve(
    entities: Seq<Entity>,
    window: Option<Window>,
    up: bool,
    down: bool,
) -> Seq<Entity> {
    after_reset(after_motion(entities, window, up, down), signals(entities, window, up, down))
}

/// The entities after a whole tick: last of all the machine steers its
/// paddle, by where the ball is after it has moved, bounced and perhaps
/// been served.
pub open spec fn after_tick(
    entities: Seq<Entity>,
    window: Option<Window>,
    up: bool,
    down: bool,
) -> Seq<Entity> {
    after_move_ai(after_serve(entities, window, up, down))
}

/// The entities after `ticks` ticks with the same window and the same keys
/// held down.
pub open spec fn after_ticks(
    entities: Seq<Entity>,
    window: Option<Window>,
    up: bool,
    down: bool,
    ticks: nat,
) -> Seq<Entity>
    decreases ticks,
{
    if ticks == 0 {
        entities
    } else {
        after_tick(after_ticks(entities, window, up, down, (ticks - 1) as nat), window, up, down)
    }
}

/// Plays one tick. The steps run in this order, each on what the one
/// before has left: the ball moves; the keys steer the player's paddle; the
/// paddles move; the ball bounces; a point is looked for; on a point the
/// ball is served again and the point is counted; the machine steers its
/// paddle. The result holds the new texts of the score labels in a tick in
/// which a point was scored.
pub fn tick(
    world: &mut World,
    score: &mut Score,
    window: Option<Window>,
    up: bool,
    down: bool,
) -> (labels: Option<Scoreboard>)
    ensures
        final(world)@ == after_tick(old(world)@, window, up, down),
        keeps_roles_and_shapes(old(world)@, final(world)@),
        *final(score) == after_update(*old(score), signals(old(world)@, window, up, down)),
        final(score).player >= old(score).player,
        final(score).ai >= old(score).ai,
        labels is Some <==> signals(old(world)@, window, up, down).len() > 0,
        labels matches Some(board) ==> board.player@ == decimal(final(score).player as nat)
            && board.ai@ == decimal(final(score).ai as nat),
{
    move_ball(world);
    handle_player_input(world, up, down);
    move_paddles(world, window);
    handle_collisions(world);
    let mut events: Vec<Scored> = Vec::new();
    if let Some(signal) = detect_scoring(world, window) {
        events.push(signal);
    }
    assert(events@ =~= signals(old(world)@, window, up, down));
    reset_ball(world, &events);
    let changed = update_score(score, &events);
    move_ai(world);
    proof {
        lemma_tick_keeps_roles_and_shapes(old(world)@, window, up, down);
    }
    update_scoreboard(score, changed)
}

/// A tick has at most one signal.
pub proof fn lemma_at_most_one_signal(
    entities: Seq<Entity>,
    window: Option<Window>,
    up: bool,
    down: bool,
)
    ensures
        signals(entities, window, up, down).len() <= 1,
{
}

/// Whether `after` has as many entities as `before`, and the one at `i` is
/// what it was and where it was.
pub open spec fn same_place(before: Seq<Entity>, after: Seq<Entity>, i: int) -> bool {
    &&& after.len() == before.len()
    &&& after[i].role == before[i].role
    &&& after[i].position == before[i].position
}

/// No step but the move of the paddles moves a paddle.
proof fn lemma_other_steps_leave_paddles_in_place(
    entities: Seq<Entity>,
    up: bool,
    down: bool,
    events: Seq<Scored>,
    i: int,
)
    requires
        0 <= i < entities.len(),
        entities[i].role is Paddle,
    ensures
        same_place(entities, after_move_ball(entities), i),
        same_place(entities, after_player_input(entities, up, down), i),
        same_place(entities, after_collisions(entities), i),
        same_place(entities, after_reset(entities, events), i),
        same_place(entities, after_move_ai(entities), i),
{
    lemma_single_is_sound(entities, Role::Ball);
    lemma_single_is_sound(entities, Role::Paddle(Controller::Player));
    lemma_single_is_sound(entities, Role::Paddle(Controller::Ai));
}

/// A tick keeps a paddle that lies between the gutters between them,
/// whatever the keys say.
pub proof fn lemma_tick_keeps_paddles_within_reach(
    entities: Seq<Entity>,
    window: Window,
    up: bool,
    down: bool,
    i: int,
)
    requires
        0 <= i < entities.len(),
        entities[i].role is Paddle,
        within_reach(entities[i].position.y as int, window),
    ensures
        after_tick(entities, Some(window), up, down).len() == entities.len(),
        after_tick(entities, Some(window), up, down)[i].role == entities[i].role,
        within_reach(after_tick(entities, Some(window), up, down)[i].position.y as int, window),
{
    let moved = after_move_ball(entities);
    lemma_other_steps_leave_paddles_in_place(entities, up, down, Seq::empty(), i);
    let steered = after_player_input(moved, up, down);
    lemma_other_steps_leave_paddles_in_place(moved, up, down, Seq::empty(), i);
    let placed = after_move_paddles(steered, Some(window));
    assert(placed[i].role == steered[i].role);
    assert(within_reach(placed[i].position.y as int, window));
    let bounced = after_collisions(placed);
    lemma_other_steps_leave_paddles_in_place(placed, up, down, Seq::empty(), i);
    let events = signals(entities, Some(window), up, down);
    let served = after_reset(bounced, events);
    lemma_other_steps_leave_paddles_in_place(bounced, up, down, events, i);
    lemma_other_steps_leave_paddles_in_place(served, up, down, events, i);
}

/// However many ticks are played, and whatever keys are held down all the
/// while, a paddle that lies between the gutters stays between them: its
/// centre never comes further from the middle than half the height of the
/// window, less a gutter and half a paddle.
pub proof fn lemma_paddles_stay_within_reach(
    entities: Seq<Entity>,
    window: Window,
    up: bool,
    down: bool,
    ticks: nat,
    i: int,
)
    requires
        0 <= i < entities.len(),
        entities[i].role is Paddle,
        within_reach(entities[i].position.y as int, window),
    ensures
        after_ticks(entities, Some(window), up, down, ticks).len() == entities.len(),
        after_ticks(entities, Some(window), up, down, ticks)[i].role == entities[i].role,
        within_reach(
            after_ticks(entities, Some(window), up, down, ticks)[i].position.y as int,
            window,
        ),
    decreases ticks,
{
    if ticks > 0 {
        lemma_paddles_stay_within_reach(entities, window, up, down, (ticks - 1) as nat, i);
        lemma_tick_keeps_paddles_within_reach(
            after_ticks(entities, Some(window), up, down, (ticks - 1) as nat),
            window,
            up,
            down,
            i,
        );
    }
}

/// No step adds or removes an entity, or changes the role or the shape of
/// one.
proof fn lemma_steps_keep_roles_and_shapes(
    entities: Seq<Entity>,
    window: Option<Window>,
    up: bool,
    down: bool,
    events: Seq<Scored>,
)
    ensures
        keeps_roles_and_shapes(entities, after_move_ball(entities)),
        keeps_roles_and_shapes(entities, after_player_input(entities, up, down)),
        keeps_roles_and_shapes(entities, after_move_paddles(entities, window)),
        keeps_roles_and_shapes(entities, after_collisions(entities)),
        keeps_roles_and_shapes(entities, after_reset(entities, events)),
        keeps_roles_and_shapes(entities, after_move_ai(entities)),
{
    lemma_single_is_sound(entities, Role::Ball);
    lemma_single_is_sound(entities, Role::Paddle(Controller::Player));
    lemma_single_is_sound(entities, Role::Paddle(Controller::Ai));
}

/// Up to the serve a tick adds or removes no entity and changes neither
/// the role nor the shape of one.
proof fn lemma_serve_keeps_roles_and_shapes(
    entities: Seq<Entity>,
    window: Option<Window>,
    up: bool,
    down: bool,
)
    ensures
        keeps_roles_and_shapes(entities, after_serve(entities, window, up, down)),
{
    let events = signals(entities, window, up, down);
    let moved = after_move_ball(entities);
    lemma_steps_keep_roles_and_shapes(entities, window, up, down, events);
    let steered = after_player_input(moved, up, down);
    lemma_steps_keep_roles_and_shapes(moved, window, up, down, events);
    lemma_keeping_chains(entities, moved, steered);
    let placed = after_move_paddles(steered, window);
    lemma_steps_keep_roles_and_shapes(steered, window, up, down, events);
    lemma_keeping_chains(entities, steered, placed);
    let bounced = after_collisions(placed);
    lemma_steps_keep_roles_and_shapes(placed, window, up, down, events);
    lemma_keeping_chains(entities, placed, bounced);
    lemma_steps_keep_roles_and_shapes(bounced, window, up, down, events);
    lemma_keeping_chains(entities, bounced, after_reset(bounced, events));
}

/// A tick adds or removes no entity and changes neither the role nor the
/// shape of one.
pub proof fn lemma_tick_keeps_roles_and_shapes(
    entities: Seq<Entity>,
    window: Option<Window>,
    up: bool,
    down: bool,
)
    ensures
        keeps_roles_and_shapes(entities, after_tick(entities, window, up, down)),
{
    let served = after_serve(entities, window, up, down);
    lemma_serve_keeps_roles_and_shapes(entities, window, up, down);
    lemma_steps_keep_roles_and_shapes(served, window, up, down, Seq::empty());
    lemma_keeping_chains(entities, served, after_move_ai(served));
}

/// A world with exactly one ball has exactly one ball after every tick, at
/// the same place in the list, and the same holds of the paddle of each
/// side.
pub proof fn lemma_tick_keeps_singles(
    entities: Seq<Entity>,
    window: Option<Window>,
    up: bool,
    down: bool,
    role: Role,
)
    ensures
        single(after_tick(entities, window, up, down), role) == single(entities, role),
{
    lemma_tick_keeps_roles_and_shapes(entities, window, up, down);
    lemma_singles_are_kept(entities, after_tick(entities, window, up, down), role);
}

/// After a tick in a world with one ball and one paddle of the machine, the
/// vertical velocity of that paddle has the sign of the way from the paddle
/// to the ball: none where both are at one height, else towards the ball.
pub proof fn lemma_tick_ai_follows_ball(
    entities: Seq<Entity>,
    window: Option<Window>,
    up: bool,
    down: bool,
    p: int,
    b: int,
)
    requires
        single(entities, Role::Paddle(Controller::Ai)) == Some(p),
        single(entities, Role::Ball) == Some(b),
    ensures
        ({
            let after = after_tick(entities, window, up, down);
            signum(after[p].velocity.y as int) == signum(
                after[b].position.y - after[p].position.y,
            )
        }),
{
    let served = after_serve(entities, window, up, down);
    lemma_serve_keeps_roles_and_shapes(entities, window, up, down);
    lemma_singles_are_kept(entities, served, Role::Ball);
    lemma_singles_are_kept(entities, served, Role::Paddle(Controller::Ai));
    lemma_single_is_sound(served, Role::Ball);
    lemma_single_is_sound(served, Role::Paddle(Controller::Ai));
}

} // verus!
