//! Scoring: the ball leaves the playfield on one side, the other side gets
//! a point, and the ball is served again from the middle.

use crate::world::{
    keeps_roles_and_shapes, single, Entity, IVec2, Role, Window, World, BALL_SPEED,
};
use vstd::prelude::*;

verus! {

/// The side that gets a point. The machine plays on the left and the
/// player on the right.
#[derive(Clone, Copy, Debug, PartialEq, Eq, Structural)]
pub enum Scorer {
    Ai,
    Player,
}

/// The signal that a point was scored, and by whom.
#[derive(Clone, Copy, Debug, PartialEq, Eq, Structural)]
pub struct Scored(pub Scorer);

/// The points of both sides.
#[derive(Clone, Copy, Debug, PartialEq, Eq, Structural)]
pub struct Score {
    pub player: u32,
    pub ai: u32,
}

/// The texts of the two score labels.
#[derive(Debug)]
pub struct Scoreboard {
    pub player: String,
    pub ai: String,
}

/// Who scores with the ball at `x`: the machine where the ball is further
/// right than half the width of the window, the player where it is further
/// left than that, and nobody in between.
pub open spec fn scorer_at(x: int, window: Window) -> Option<Scorer> {
    if 2 * x > window.width {
        Some(Scorer::Ai)
    } else if 2 * x < -window.width {
        Some(Scorer::Player)
    } else {
        None
    }
}

/// The signal of this tick: with a window and exactly one ball, the one
/// that the place of the ball calls for. Else there is none.
pub open spec fn scoring(entities: Seq<Entity>, window: Option<Window>) -> Option<Scored> {
    match (window, single(entities, Role::Ball)) {
        (Some(w), Some(b)) => match scorer_at(entities[b].position.x as int, w) {
            Some(scorer) => Some(Scored(scorer)),
            None => None,
        },
        _ => None,
    }
}

/// The velocity with which the ball is served after `scorer` has scored:
/// upwards, and sideways towards the side that lost the point.
pub open spec fn serve_velocity(scorer: Scorer) -> IVec2 {
    match scorer {
        Scorer::Ai => IVec2 { x: BALL_SPEED, y: BALL_SPEED },
        Scorer::Player => IVec2 { x: (-BALL_SPEED) as i32, y: BALL_SPEED },
    }
}

/// `ball` as it is served after `scorer` has scored: in the middle of the
/// playfield, with the velocity of the serve.
pub open spec fn served(ball: Entity, scorer: Scorer) -> Entity {
    Entity { position: IVec2 { x: 0, y: 0 }, velocity: serve_velocity(scorer), ..ball }
}

/// The entities after the signals of a tick were answered: with a signal
/// and exactly one ball, the ball is `served` for the last signal; nothing
/// else changes.
pub open spec fn after_reset(entities: Seq<Entity>, events: Seq<Scored>) -> Seq<Entity> {
    match single(entities, Role::Ball) {
        Some(b) if events.len() > 0 => entities.update(b, served(entities[b], events.last().0)),
        _ => entities,
    }
}

/// How many of `events` give a point to `scorer`.
pub open spec fn points(events: Seq<Scored>, scorer: Scorer) -> nat
    decreases events.len(),
{
    if events.len() == 0 {
        0
    } else {
        let earlier = points(events.drop_last(), scorer);
        if events.last().0 == scorer {
            earlier + 1
        } else {
            earlier
        }
    }
}

/// A counter that stood at `count` after `more` points. It stops at the
/// largest number that it can hold.
pub open spec fn counted(count: u32, more: nat) -> u32 {
    if count + more <= u32::MAX {
        (count + more) as u32
    } else {
        u32::MAX
    }
}

/// The score after the signals of a tick were counted: one point for each.
pub open spec fn after_update(score: Score, events: Seq<Scored>) -> Score {
    Score {
        player: counted(score.player, points(events, Scorer::Player)),
        ai: counted(score.ai, points(events, Scorer::Ai)),
    }
}

/// The decimal digit for `d`.
pub open spec fn digit(d: int) -> char {
    if d == 0 {
        '0'
    } else if d == 1 {
        '1'
    } else if d == 2 {
        '2'
    } else if d == 3 {
        '3'
    } else if d == 4 {
        '4'
    } else if d == 5 {
        '5'
    } else if d == 6 {
        '6'
    } else if d == 7 {
        '7'
    } else if d == 8 {
        '8'
    } else {
        '9'
    }
}

/// `n` written in decimal digits, without leading zeros.
pub open spec fn decimal(n: nat) -> Seq<char>
    decreases n,
{
    if n < 10 {
        seq![digit(n as int)]
    } else {
        decimal(n / 10).push(digit((n % 10) as int))
    }
}

impl Score {
    /// The score at the start of a game.
    pub fn new() -> (s: Score)
        ensures
            s == (Score { player: 0, ai: 0 }),
    {
        Score { player: 0, ai: 0 }
    }
}

impl Default for Score {
    fn default() -> (s: Score)
        ensures
            s == (Score { player: 0, ai: 0 }),
    {
        Score::new()
    }
}

/// Says whether the ball has left the playfield and who scores by that.
/// There is at most one signal per tick. Without a window, and unless the
/// world holds exactly one ball, there is none.
pub fn detect_scoring(world: &World, window: Option<Window>) -> (signal: Option<Scored>)
    ensures
        signal == scoring(world@, window),
{
    let Some(w) = window else {
        return None;
    };
    let Some(b) = world.single(Role::Ball) else {
        return None;
    };
    let x: i64 = world.entities[b].position.x as i64;
    if 2 * x > w.width as i64 {
        Some(Scored(Scorer::Ai))
    } else if 2 * x < -(w.width as i64) {
        Some(Scored(Scorer::Player))
    } else {
        None
    }
}

/// Serves the ball again after a point: it starts in the middle and flies
/// towards the side that lost the point. Of several signals the last one
/// decides. Without a signal, and unless the world holds exactly one ball,
/// nothing happens.
pub fn reset_ball(world: &mut World, events: &Vec<Scored>)
    ensures
        final(world)@ == after_reset(old(world)@, events@),
        keeps_roles_and_shapes(old(world)@, final(world)@),
{
    let n = events.len();
    if n == 0 {
        return ;
    }
    if let Some(b) = world.single(Role::Ball) {
        let ball = world.entities[b];
        let velocity = match events[n - 1].0 {
            Scorer::Ai => IVec2::new(BALL_SPEED, BALL_SPEED),
            Scorer::Player => IVec2::new(-BALL_SPEED, BALL_SPEED),
        };
        world.entities.set(b, Entity { position: IVec2::new(0, 0), velocity, ..ball });
    }
}

/// Counts the signals of a tick: one point for the scorer of each. Says
/// whether there was any signal to count.
pub fn update_score(score: &mut Score, events: &Vec<Scored>) -> (changed: bool)
    ensures
        *final(score) == after_update(*old(score), events@),
        changed == (events@.len() > 0),
        final(score).player >= old(score).player,
        final(score).ai >= old(score).ai,
{
    let mut i: usize = 0;
    while i < events.len()
        invariant
            i <= events.len(),
            *score == after_update(*old(score), events@.take(i as int)),
        decreases events.len() - i,
    {
        proof {
            let upto = events@.take(i as int + 1);
            assert(upto.drop_last() == events@.take(i as int));
            assert(upto.last() == events@[i as int]);
        }
        match events[i].0 {
            Scorer::Ai => {
                if score.ai < u32::MAX {
                    score.ai += 1;
                }
            },
            Scorer::Player => {
                if score.player < u32::MAX {
                    score.player += 1;
                }
            },
        }
        i += 1;
    }
    assert(events@.take(i as int) == events@);
    events.len() > 0
}

fn digit_text(d: u32) -> (text: &'static str)
    requires
        d < 10,
    ensures
        text@ == seq![digit(d as int)],
{
    proof {
        reveal_strlit("0");
        reveal_strlit("1");
        reveal_strlit("2");
        reveal_strlit("3");
        reveal_strlit("4");
        reveal_strlit("5");
        reveal_strlit("6");
        reveal_strlit("7");
        reveal_strlit("8");
        reveal_strlit("9");
    }
    let text = match d {
        0 => "0",
        1 => "1",
        2 => "2",
        3 => "3",
        4 => "4",
        5 => "5",
        6 => "6",
        7 => "7",
        8 => "8",
        _ => "9",
    };
    assert(text@ =~= seq![digit(d as int)]);
    text
}

/// Writes `n` in decimal digits.
pub fn decimal_text(n: u32) -> (text: String)
    ensures
        text@ == decimal(n as nat),
    decreases n,
{
    if n < 10 {
        String::from_str(digit_text(n))
    } else {
        let mut text = decimal_text(n / 10);
        text.append(digit_text(n % 10));
        assert(text@ =~= decimal(n as nat));
        text
    }
}

/// The texts for the two score labels, where they are to be written anew:
/// that is when `changed` says that the score has changed.
pub fn update_scoreboard(score: &Score, changed: bool) -> (labels: Option<Scoreboard>)
    ensures
        labels is Some <==> changed,
        labels matches Some(board) ==> board.player@ == decimal(score.player as nat) && board.ai@
            == decimal(score.ai as nat),
{
    if changed {
        Some(Scoreboard { player: decimal_text(score.player), ai: decimal_text(score.ai) })
    } else {
        None
    }
}

/// Counting never takes a point away.
pub proof fn lemma_score_never_falls(score: Score, events: Seq<Scored>)
    ensures
        after_update(score, events).player >= score.player,
        after_update(score, events).ai >= score.ai,
{
}

/// One step past the right side of the window the machine scores, one step
/// past the left side the player. Half the width is rounded down here.
pub proof fn lemma_scoring_past_the_sides(window: Window)
    ensures
        scorer_at(window.width / 2 + 1, window) == Some(Scorer::Ai),
        scorer_at(-(window.width / 2) - 1, window) == Some(Scorer::Player),
{
}

/// The signal of a tick adds exactly one point to the side that scored,
/// unless that side's counter is full, and none to the other side.
pub proof fn lemma_one_point_per_signal(score: Score, signal: Scored)
    ensures
        signal.0 == Scorer::Ai ==> after_update(score, seq![signal]) == (Score {
            ai: counted(score.ai, 1),
            ..score
        }),
        signal.0 == Scorer::Player ==> after_update(score, seq![signal]) == (Score {
            player: counted(score.player, 1),
            ..score
        }),
        score.ai < u32::MAX ==> counted(score.ai, 1) == score.ai + 1,
        score.player < u32::MAX ==> counted(score.player, 1) == score.player + 1,
{
    let events = seq![signal];
    assert(events.drop_last().len() == 0);
    assert(events.last() == signal);
    assert(points(events.drop_last(), Scorer::Ai) == 0);
    assert(points(events.drop_last(), Scorer::Player) == 0);
}

/// A served ball starts in the middle of the playfield, rises, and flies
/// towards the side that lost the point: to the left after the player has
/// scored, to the right after the machine has.
pub proof fn lemma_serve(ball: Entity, scorer: Scorer)
    ensures
        served(ball, scorer).position == (IVec2 { x: 0, y: 0 }),
        served(ball, scorer).velocity.y == BALL_SPEED,
        scorer == Scorer::Player ==> served(ball, scorer).velocity.x == -BALL_SPEED,
        scorer == Scorer::Ai ==> served(ball, scorer).velocity.x == BALL_SPEED,
{
}

/// After the signals of a tick were answered in a world with one ball, the
/// ball is in the middle of the playfield with the velocity of the serve
/// for the last signal.
pub proof fn lemma_reset_serves_the_ball(entities: Seq<Entity>, events: Seq<Scored>, b: int)
    requires
        single(entities, Role::Ball) == Some(b),
        events.len() > 0,
    ensures
        after_reset(entities, events)[b].position == (IVec2 { x: 0, y: 0 }),
        after_reset(entities, events)[b].velocity == serve_velocity(events.last().0),
{
}

} // verus!
