//! Where the ball strikes a box, and what that does to its velocity.

use crate::geometry::{abs, distance_squared, Aabb2d, BoundingCircle, Point};
use crate::world::{keeps_roles_and_shapes, single, Entity, IVec2, Role, World};
use vstd::prelude::*;

verus! {

/// The side of an obstacle on which the ball has struck it.
#[derive(Clone, Copy, Debug, PartialEq, Eq, Structural)]
pub enum Collision {
    Left,
    Right,
    Top,
    Bottom,
}

/// The side that is struck when the way from the nearest point of the box to
/// the centre of the ball is `(ox, oy)`. The axis with the longer offset is
/// the one struck, and the vertical axis where both are equally long. On
/// the horizontal axis a negative offset means `Left` and any other
/// `Right`; on the vertical axis a positive offset means `Top` and any
/// other, zero too, `Bottom`.
pub open spec fn side_of(ox: int, oy: int) -> Collision {
    if abs(ox) > abs(oy) {
        if ox < 0 {
            Collision::Left
        } else {
            Collision::Right
        }
    } else if oy > 0 {
        Collision::Top
    } else {
        Collision::Bottom
    }
}

/// The side on which `ball` strikes `wall`; `None` where the two do not
/// touch.
pub open spec fn collision_side(ball: BoundingCircle, wall: Aabb2d) -> Option<Collision> {
    if ball.reaches(wall) {
        Some(side_of(ball.offset_x(wall), ball.offset_y(wall)))
    } else {
        None
    }
}

/// Whether `doubled` is `ball` with every length doubled.
pub open spec fn is_doubled_circle(ball: BoundingCircle, doubled: BoundingCircle) -> bool {
    &&& doubled.center.x == 2 * ball.center.x
    &&& doubled.center.y == 2 * ball.center.y
    &&& doubled.radius == 2 * ball.radius
}

/// Whether `doubled` is `wall` with every length doubled.
pub open spec fn is_doubled_box(wall: Aabb2d, doubled: Aabb2d) -> bool {
    &&& doubled.center.x == 2 * wall.center.x
    &&& doubled.center.y == 2 * wall.center.y
    &&& doubled.half_width == 2 * wall.half_width
    &&& doubled.half_height == 2 * wall.half_height
}

/// Whether a strike on `collision` turns the horizontal component.
pub open spec fn is_horizontal(collision: Collision) -> bool {
    collision is Left || collision is Right
}

/// `v` with its sign turned. The one value whose negative is no `i32` stays
/// as it is.
pub open spec fn negated(v: i32) -> i32 {
    if v == i32::MIN {
        v
    } else {
        (-v) as i32
    }
}

/// The velocity `v` after a strike on the given side: the component along
/// the struck axis changes its sign, the other one stays.
pub open spec fn reflected(v: IVec2, collision: Collision) -> IVec2 {
    match collision {
        Collision::Left | Collision::Right => IVec2 { x: negated(v.x), y: v.y },
        Collision::Top | Collision::Bottom => IVec2 { x: v.x, y: negated(v.y) },
    }
}

/// The velocity `v` after the outcome of one test against an obstacle.
pub open spec fn deflected(v: IVec2, hit: Option<Collision>) -> IVec2 {
    match hit {
        Some(collision) => reflected(v, collision),
        None => v,
    }
}

/// The velocity of `ball` after it was tested against each of `others`
/// that is no ball, in their order. Every strike counts, so two strikes
/// along one axis undo each other.
pub open spec fn bounced(ball: Entity, others: Seq<Entity>) -> IVec2
    decreases others.len(),
{
    if others.len() == 0 {
        ball.velocity
    } else {
        let before = bounced(ball, others.drop_last());
        let other = others.last();
        if other.role == Role::Ball {
            before
        } else {
            deflected(before, collision_side(ball.circle(), other.aabb()))
        }
    }
}

/// How many of `others` that are no ball `ball` strikes along one axis:
/// the horizontal one where `horizontal` holds, else the vertical one.
pub open spec fn strikes(ball: Entity, others: Seq<Entity>, horizontal: bool) -> nat
    decreases others.len(),
{
    if others.len() == 0 {
        0
    } else {
        let earlier = strikes(ball, others.drop_last(), horizontal);
        let other = others.last();
        match collision_side(ball.circle(), other.aabb()) {
            Some(collision) if other.role != Role::Ball && is_horizontal(collision)
                == horizontal => earlier + 1,
            _ => earlier,
        }
    }
}

/// The entities after the collision step. With exactly one ball, its
/// velocity is the one that `bounced` gives; nothing else changes.
pub open spec fn after_collisions(entities: Seq<Entity>) -> Seq<Entity> {
    match single(entities, Role::Ball) {
        Some(i) => entities.update(
            i,
            Entity { velocity: bounced(entities[i], entities), ..entities[i] },
        ),
        None => entities,
    }
}

/// Tests a disc against a box and names the side that is struck.
pub fn collide_with_side(ball: BoundingCircle, wall: Aabb2d) -> (hit: Option<Collision>)
    ensures
        hit == collision_side(ball, wall),
{
    if !ball.intersects(&wall) {
        return None;
    }
    let (ox, oy) = ball.offset(&wall);
    let ax: i128 = if ox < 0 { -ox } else { ox };
    let ay: i128 = if oy < 0 { -oy } else { oy };
    let side = if ax > ay {
        if ox < 0 {
            Collision::Left
        } else {
            Collision::Right
        }
    } else if oy > 0 {
        Collision::Top
    } else {
        Collision::Bottom
    };
    Some(side)
}

fn negate(v: i32) -> (n: i32)
    ensures
        n == negated(v),
{
    if v == i32::MIN {
        v
    } else {
        -v
    }
}

/// Turns the sign of the component of `velocity` along the struck axis.
pub fn reflect(velocity: &mut IVec2, collision: Collision)
    ensures
        *final(velocity) == reflected(*old(velocity), collision),
{
    match collision {
        Collision::Left | Collision::Right => {
            velocity.x = negate(velocity.x);
        },
        Collision::Top | Collision::Bottom => {
            velocity.y = negate(velocity.y);
        },
    }
}

/// The collision step of a tick. With exactly one ball in the world, the
/// ball is tested against every other entity and its velocity is reflected
/// at each one that it strikes. Without a ball, or with several, nothing
/// happens.
pub fn handle_collisions(world: &mut World)
    ensures
        final(world)@ == after_collisions(old(world)@),
        keeps_roles_and_shapes(old(world)@, final(world)@),
{
    let Some(b) = world.single(Role::Ball) else {
        return ;
    };
    let ball = world.entities[b];
    let circle = ball.bounding_circle();
    let mut velocity = ball.velocity;
    let mut j: usize = 0;
    while j < world.entities.len()
        invariant
            j <= world.entities.len(),
            world@ == old(world)@,
            circle == ball.circle(),
            velocity == bounced(ball, world@.take(j as int)),
        decreases world.entities.len() - j,
    {
        let other = world.entities[j];
        proof {
            let upto = world@.take(j as int + 1);
            assert(upto.drop_last() == world@.take(j as int));
            assert(upto.last() == other);
        }
        if other.role != Role::Ball {
            if let Some(collision) = collide_with_side(circle, other.bounding_box()) {
                reflect(&mut velocity, collision);
            }
        }
        j += 1;
    }
    assert(world@.take(j as int) == world@);
    world.entities.set(b, Entity { velocity, ..ball });
}

/// No point of `wall` is nearer to the centre of `ball` than the one that
/// the offsets are measured from.
pub proof fn lemma_offset_is_shortest(ball: BoundingCircle, wall: Aabb2d, x: int, y: int)
    requires
        wall.contains(x, y),
    ensures
        ball.offset_x(wall) * ball.offset_x(wall) + ball.offset_y(wall) * ball.offset_y(wall)
            <= distance_squared(x, y, ball.center.x as int, ball.center.y as int),
{
    let ox = ball.offset_x(wall);
    let oy = ball.offset_y(wall);
    let dx = x - ball.center.x;
    let dy = y - ball.center.y;
    assert(abs(ox) <= abs(dx));
    assert(abs(oy) <= abs(dy));
    assert(ox * ox <= dx * dx) by (nonlinear_arith)
        requires
            abs(ox) <= abs(dx),
            abs(ox) == ox || abs(ox) == -ox,
            abs(dx) == dx || abs(dx) == -dx,
            abs(ox) >= 0,
    ;
    assert(oy * oy <= dy * dy) by (nonlinear_arith)
        requires
            abs(oy) <= abs(dy),
            abs(oy) == oy || abs(oy) == -oy,
            abs(dy) == dy || abs(dy) == -dy,
            abs(oy) >= 0,
    ;
}

/// A disc and a box without a common point do not collide. Points of the
/// grid are meant; the point of the box nearest to the centre of the disc
/// is one of them, so no other kind of point can make them meet.
pub proof fn lemma_apart_means_no_collision(ball: BoundingCircle, wall: Aabb2d)
    requires
        forall|x: int, y: int| !(#[trigger] wall.contains(x, y) && ball.contains(x, y)),
    ensures
        collision_side(ball, wall) is None,
{
    let x = wall.closest_x(ball.center.x as int);
    let y = wall.closest_y(ball.center.y as int);
    assert(wall.contains(x, y));
    assert(!ball.contains(x, y));
    assert((x - ball.center.x) * (x - ball.center.x) == ball.offset_x(wall) * ball.offset_x(wall))
        by (nonlinear_arith)
        requires
            x - ball.center.x == -ball.offset_x(wall),
    ;
    assert((y - ball.center.y) * (y - ball.center.y) == ball.offset_y(wall) * ball.offset_y(wall))
        by (nonlinear_arith)
        requires
            y - ball.center.y == -ball.offset_y(wall),
    ;
}

/// A disc and a box with a common point collide.
pub proof fn lemma_common_point_means_collision(
    ball: BoundingCircle,
    wall: Aabb2d,
    x: int,
    y: int,
)
    requires
        wall.contains(x, y),
        ball.contains(x, y),
    ensures
        collision_side(ball, wall) is Some,
{
    lemma_offset_is_shortest(ball, wall, x, y);
}

/// A disc that just touches a box strikes it, on the side that the offsets
/// of its centre call for.
pub proof fn lemma_touching_is_a_collision(ball: BoundingCircle, wall: Aabb2d)
    requires
        ball.offset_x(wall) * ball.offset_x(wall) + ball.offset_y(wall) * ball.offset_y(wall)
            == ball.radius * ball.radius,
    ensures
        collision_side(ball, wall) == Some(side_of(ball.offset_x(wall), ball.offset_y(wall))),
{
}

/// A disc of positive radius that touches an edge of a box from outside
/// strikes the side that this edge is: `Left` where it lies left of the
/// box, and so on round the box.
pub proof fn lemma_touching_an_edge(ball: BoundingCircle, wall: Aabb2d)
    requires
        ball.radius > 0,
    ensures
        ball.center.x == wall.min_x() - ball.radius && wall.min_y() <= ball.center.y
            <= wall.max_y() ==> collision_side(ball, wall) == Some(Collision::Left),
        ball.center.x == wall.max_x() + ball.radius && wall.min_y() <= ball.center.y
            <= wall.max_y() ==> collision_side(ball, wall) == Some(Collision::Right),
        ball.center.y == wall.max_y() + ball.radius && wall.min_x() <= ball.center.x
            <= wall.max_x() ==> collision_side(ball, wall) == Some(Collision::Top),
        ball.center.y == wall.min_y() - ball.radius && wall.min_x() <= ball.center.x
            <= wall.max_x() ==> collision_side(ball, wall) == Some(Collision::Bottom),
{
    let r = ball.radius as int;
    assert((-r) * (-r) == r * r) by (nonlinear_arith);
    assert(0 * 0 == 0);
}

/// Two strikes along one axis leave the velocity as it was.
pub proof fn lemma_reflect_twice(v: IVec2, first: Collision, second: Collision)
    requires
        is_horizontal(first) == is_horizontal(second),
    ensures
        reflected(reflected(v, first), second) == v,
{
}

/// Strikes along different axes do not disturb each other: either order
/// gives the same velocity.
pub proof fn lemma_reflect_commutes(v: IVec2, first: Collision, second: Collision)
    ensures
        reflected(reflected(v, first), second) == reflected(reflected(v, second), first),
{
}

/// What the collision step does to the ball depends on the number of
/// strikes along each axis alone, not on their order: an odd number turns
/// the component along that axis, an even number leaves it.
pub proof fn lemma_bounced_by_parity(ball: Entity, others: Seq<Entity>)
    ensures
        bounced(ball, others).x == (if strikes(ball, others, true) % 2 == 1 {
            negated(ball.velocity.x)
        } else {
            ball.velocity.x
        }),
        bounced(ball, others).y == (if strikes(ball, others, false) % 2 == 1 {
            negated(ball.velocity.y)
        } else {
            ball.velocity.y
        }),
    decreases others.len(),
{
    if others.len() > 0 {
        lemma_bounced_by_parity(ball, others.drop_last());
    }
}

/// A collision does not depend on the unit of length: with every length
/// doubled, the same side is struck. So the test on the grid of half units
/// is the test on whole units wherever half of each extent is a whole
/// number.
pub proof fn lemma_doubling_keeps_collision(
    ball: BoundingCircle,
    wall: Aabb2d,
    ball2: BoundingCircle,
    wall2: Aabb2d,
)
    requires
        is_doubled_circle(ball, ball2),
        is_doubled_box(wall, wall2),
    ensures
        collision_side(ball2, wall2) == collision_side(ball, wall),
{
    let ox = ball.offset_x(wall);
    let oy = ball.offset_y(wall);
    let r = ball.radius as int;
    assert(ball2.offset_x(wall2) == 2 * ox);
    assert(ball2.offset_y(wall2) == 2 * oy);
    assert((2 * ox) * (2 * ox) + (2 * oy) * (2 * oy) == 4 * (ox * ox + oy * oy))
        by (nonlinear_arith);
    assert((2 * r) * (2 * r) == 4 * (r * r)) by (nonlinear_arith);
}

/// Where the width and the height of `other` are even, the test that the
/// collision step makes on the grid of half units is the test of the disc
/// of `ball` against the box that reaches half the width and half the
/// height of `other` to each side of its position, in whole units.
pub proof fn lemma_even_extents_in_whole_units(ball: Entity, other: Entity)
    requires
        other.shape.width % 2 == 0,
        other.shape.height % 2 == 0,
    ensures
        collision_side(ball.circle(), other.aabb()) == collision_side(
            BoundingCircle {
                center: Point { x: ball.position.x as i64, y: ball.position.y as i64 },
                radius: ball.shape.width as u64,
            },
            Aabb2d {
                center: Point { x: other.position.x as i64, y: other.position.y as i64 },
                half_width: (other.shape.width / 2) as u64,
                half_height: (other.shape.height / 2) as u64,
            },
        ),
{
    lemma_doubling_keeps_collision(
        BoundingCircle {
            center: Point { x: ball.position.x as i64, y: ball.position.y as i64 },
            radius: ball.shape.width as u64,
        },
        Aabb2d {
            center: Point { x: other.position.x as i64, y: other.position.y as i64 },
            half_width: (other.shape.width / 2) as u64,
            half_height: (other.shape.height / 2) as u64,
        },
        ball.circle(),
        other.aabb(),
    );
}

} // verus!
