//! What the game is made of: the entities on the playfield and the list
//! that holds them.

use crate::geometry::{Aabb2d, BoundingCircle, Point};
use vstd::prelude::*;

verus! {

/// The radius of the ball.
pub const BALL_SIZE: u32 = 5;

/// The speed of the ball along each axis after a serve, and along the
/// horizontal axis at the start of the game.
pub const BALL_SPEED: i32 = 4;

/// How far a paddle moves per tick for each unit of its velocity.
pub const PADDLE_SPEED: i32 = 1;

pub const PADDLE_WIDTH: u32 = 10;

pub const PADDLE_HEIGHT: u32 = 50;

/// The distance of each paddle from its side of the window.
pub const PADDLE_PADDING: i32 = 50;

/// The thickness of the gutters along the top and the bottom of the window.
pub const GUTTER_HEIGHT: u32 = 20;

/// The vertical speed of the paddle that the machine steers.
pub const AI_SPEED: i32 = 4;

/// A position or a velocity on the playfield. The origin is the centre of
/// the window, `x` grows to the right and `y` grows upwards.
#[derive(Clone, Copy, Debug, PartialEq, Eq, Structural)]
pub struct IVec2 {
    pub x: i32,
    pub y: i32,
}

/// The extent of an entity. A ball is a disc whose radius is its width; a
/// paddle or a gutter is a box of this width and height around its position.
#[derive(Clone, Copy, Debug, PartialEq, Eq, Structural)]
pub struct Shape {
    pub width: u32,
    pub height: u32,
}

/// The size of the window, which is the playfield.
#[derive(Clone, Copy, Debug, PartialEq, Eq, Structural)]
pub struct Window {
    pub width: u32,
    pub height: u32,
}

/// Who steers a paddle.
#[derive(Clone, Copy, Debug, PartialEq, Eq, Structural)]
pub enum Controller {
    Player,
    Ai,
}

/// What an entity is. It decides which steps of a tick apply to it.
#[derive(Clone, Copy, Debug, PartialEq, Eq, Structural)]
pub enum Role {
    Ball,
    Paddle(Controller),
    Gutter,
}

/// One thing on the playfield. A gutter never moves: its velocity is zero
/// and no step reads it.
#[derive(Clone, Copy, Debug, PartialEq, Eq, Structural)]
pub struct Entity {
    pub role: Role,
    pub position: IVec2,
    pub velocity: IVec2,
    pub shape: Shape,
}

/// The entities of a game, in the order in which they were spawned.
#[derive(Debug)]
pub struct World {
    pub entities: Vec<Entity>,
}

impl View for World {
    type V = Seq<Entity>;

    open spec fn view(&self) -> Seq<Entity> {
        self.entities@
    }
}

/// Whether `v` is a coordinate that an entity can have.
pub open spec fn fits_i32(v: int) -> bool {
    i32::MIN <= v <= i32::MAX
}

/// Whether the entity at `i` is the only one of `entities` with `role`.
pub open spec fn is_single(entities: Seq<Entity>, role: Role, i: int) -> bool {
    &&& 0 <= i < entities.len()
    &&& entities[i].role == role
    &&& forall|j: int| 0 <= j < entities.len() && entities[j].role == role ==> j == i
}

/// The index of the one entity with `role`; `None` where there is no such
/// entity and where there are several.
pub open spec fn single(entities: Seq<Entity>, role: Role) -> Option<int> {
    if exists|i: int| is_single(entities, role, i) {
        Some(choose|i: int| is_single(entities, role, i))
    } else {
        None
    }
}

/// Whether `after` holds the entities of `before` in their order, each
/// with the role and the shape that it had: nothing was added or removed,
/// and what was there may have moved or changed its velocity, no more.
pub open spec fn keeps_roles_and_shapes(before: Seq<Entity>, after: Seq<Entity>) -> bool {
    &&& after.len() == before.len()
    &&& forall|i: int|
        0 <= i < before.len() ==> (#[trigger] after[i]).role == before[i].role && after[i].shape
            == before[i].shape
}

/// The index that `single` gives is the only one that `is_single` accepts.
pub proof fn lemma_single_is_unique(entities: Seq<Entity>, role: Role, i: int)
    requires
        is_single(entities, role, i),
    ensures
        single(entities, role) == Some(i),
{
    let k = choose|k: int| is_single(entities, role, k);
    assert(entities[k].role == role);
}

/// What `single` gives is an index at which `is_single` holds.
pub proof fn lemma_single_is_sound(entities: Seq<Entity>, role: Role)
    ensures
        single(entities, role) matches Some(i) ==> is_single(entities, role, i),
        single(entities, role) is None ==> forall|i: int| !is_single(entities, role, i),
{
}

/// Where roles and shapes are kept, the only entity of its kind stays the
/// only one of its kind: a world with one ball stays a world with one ball,
/// at the same place in the list.
pub proof fn lemma_singles_are_kept(before: Seq<Entity>, after: Seq<Entity>, role: Role)
    requires
        keeps_roles_and_shapes(before, after),
    ensures
        single(after, role) == single(before, role),
{
    lemma_single_is_sound(before, role);
    lemma_single_is_sound(after, role);
    assert forall|i: int| is_single(before, role, i) implies is_single(after, role, i) by {
        assert(after[i].role == before[i].role);
        assert forall|j: int| 0 <= j < after.len() && after[j].role == role implies j == i by {
            assert(after[j].role == before[j].role);
        }
    }
    assert forall|i: int| is_single(after, role, i) implies is_single(before, role, i) by {
        assert(after[i].role == before[i].role);
        assert forall|j: int| 0 <= j < before.len() && before[j].role == role implies j == i by {
            assert(after[j].role == before[j].role);
        }
    }
    match single(before, role) {
        Some(i) => {
            lemma_single_is_unique(after, role, i);
        },
        None => {},
    }
}

/// Keeping roles and shapes carries over from step to step.
pub proof fn lemma_keeping_chains(first: Seq<Entity>, second: Seq<Entity>, third: Seq<Entity>)
    requires
        keeps_roles_and_shapes(first, second),
        keeps_roles_and_shapes(second, third),
    ensures
        keeps_roles_and_shapes(first, third),
{
    assert forall|i: int| 0 <= i < first.len() implies (#[trigger] third[i]).role == first[i].role
        && third[i].shape == first[i].shape by {
        assert(second[i].role == first[i].role);
    }
}

impl IVec2 {
    pub fn new(x: i32, y: i32) -> (v: IVec2)
        ensures
            v.x == x,
            v.y == y,
    {
        IVec2 { x, y }
    }
}

impl Entity {
    /// The disc of a ball, on the grid of half units: every length is
    /// doubled, so that half the extent of a box is a whole number.
    pub open spec fn circle(self) -> BoundingCircle {
        BoundingCircle {
            center: Point { x: (2 * self.position.x) as i64, y: (2 * self.position.y) as i64 },
            radius: (2 * self.shape.width) as u64,
        }
    }

    /// The box of a paddle or a gutter, on the grid of half units.
    pub open spec fn aabb(self) -> Aabb2d {
        Aabb2d {
            center: Point { x: (2 * self.position.x) as i64, y: (2 * self.position.y) as i64 },
            half_width: self.shape.width as u64,
            half_height: self.shape.height as u64,
        }
    }

    /// A ball at the centre of the playfield that moves by `(x, y)` per tick.
    pub open spec fn spec_ball(x: i32, y: i32) -> Entity {
        Entity {
            role: Role::Ball,
            position: IVec2 { x: 0, y: 0 },
            velocity: IVec2 { x, y },
            shape: Shape { width: BALL_SIZE, height: BALL_SIZE },
        }
    }

    /// A paddle at rest at `(x, y)`.
    pub open spec fn spec_paddle(controller: Controller, x: i32, y: i32) -> Entity {
        Entity {
            role: Role::Paddle(controller),
            position: IVec2 { x, y },
            velocity: IVec2 { x: 0, y: 0 },
            shape: Shape { width: PADDLE_WIDTH, height: PADDLE_HEIGHT },
        }
    }

    /// A gutter of the given width around `(x, y)`.
    pub open spec fn spec_gutter(x: i32, y: i32, width: u32) -> Entity {
        Entity {
            role: Role::Gutter,
            position: IVec2 { x, y },
            velocity: IVec2 { x: 0, y: 0 },
            shape: Shape { width, height: GUTTER_HEIGHT },
        }
    }

    /// A ball at the centre of the playfield that moves by `(x, y)` per tick.
    #[verifier::when_used_as_spec(spec_ball)]
    pub fn ball(x: i32, y: i32) -> (e: Entity)
        ensures
            e == Entity::spec_ball(x, y),
    {
        Entity {
            role: Role::Ball,
            position: IVec2::new(0, 0),
            velocity: IVec2::new(x, y),
            shape: Shape { width: BALL_SIZE, height: BALL_SIZE },
        }
    }

    /// A paddle at rest at `(x, y)`.
    #[verifier::when_used_as_spec(spec_paddle)]
    pub fn paddle(controller: Controller, x: i32, y: i32) -> (e: Entity)
        ensures
            e == Entity::spec_paddle(controller, x, y),
    {
        Entity {
            role: Role::Paddle(controller),
            position: IVec2::new(x, y),
            velocity: IVec2::new(0, 0),
            shape: Shape { width: PADDLE_WIDTH, height: PADDLE_HEIGHT },
        }
    }

    /// A gutter of the given width around `(x, y)`.
    #[verifier::when_used_as_spec(spec_gutter)]
    pub fn gutter(x: i32, y: i32, width: u32) -> (e: Entity)
        ensures
            e == Entity::spec_gutter(x, y, width),
    {
        Entity {
            role: Role::Gutter,
            position: IVec2::new(x, y),
            velocity: IVec2::new(0, 0),
            shape: Shape { width, height: GUTTER_HEIGHT },
        }
    }

    /// The disc of a ball, on the grid of half units.
    pub fn bounding_circle(&self) -> (c: BoundingCircle)
        ensures
            c == self.circle(),
    {
        BoundingCircle::new(
            Point::new(2 * (self.position.x as i64), 2 * (self.position.y as i64)),
            2 * (self.shape.width as u64),
        )
    }

    /// The box of a paddle or a gutter, on the grid of half units.
    pub fn bounding_box(&self) -> (b: Aabb2d)
        ensures
            b == self.aabb(),
    {
        Aabb2d::new(
            Point::new(2 * (self.position.x as i64), 2 * (self.position.y as i64)),
            self.shape.width as u64,
            self.shape.height as u64,
        )
    }
}

impl World {
    /// A world without entities.
    pub fn new() -> (w: World)
        ensures
            w@ == Seq::<Entity>::empty(),
    {
        World { entities: Vec::new() }
    }

    /// The index of the one entity with `role`. A step that needs such an
    /// entity does nothing in a tick in which this is `None`.
    pub fn single(&self, role: Role) -> (found: Option<usize>)
        ensures
            match found {
                Some(i) => single(self@, role) == Some(i as int),
                None => single(self@, role) is None,
            },
            found matches Some(i) ==> is_single(self@, role, i as int),
            found is None ==> forall|i: int| !is_single(self@, role, i),
    {
        let mut found: Option<usize> = None;
        let mut i: usize = 0;
        while i < self.entities.len()
            invariant
                i <= self.entities.len(),
                forall|k: usize| found == Some(k) ==> k < i && self@[k as int].role == role,
                forall|j: int|
                    0 <= j < i && self@[j].role == role ==> found == Some(j as usize),
            decreases self.entities.len() - i,
        {
            if self.entities[i].role == role {
                if found.is_some() {
                    proof {
                        let k = found.unwrap() as int;
                        assert forall|c: int| !is_single(self@, role, c) by {
                            if is_single(self@, role, c) {
                                assert(self@[k].role == role);
                                assert(self@[i as int].role == role);
                            }
                        }
                    }
                    return None;
                }
                found = Some(i);
            }
            i += 1;
        }
        proof {
            match found {
                Some(k) => {
                    lemma_single_is_unique(self@, role, k as int);
                },
                None => {
                    assert forall|c: int| !is_single(self@, role, c) by {}
                },
            }
        }
        found
    }
}

} // verus!
