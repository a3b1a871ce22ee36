//! The rules of a two-player Pong game on a grid of whole numbers: where
//! the ball, the paddles and the gutters are put, how they move, what the
//! ball bounces off, who scores, and how the machine steers its paddle.
//!
//! Nothing here draws or reads input. A host keeps a [`world::World`] and a
//! [`scoring::Score`], hands the size of its window and the state of two
//! keys to [`game::tick`] once per frame, and draws the entities that it
//! finds in the world afterwards.
//!
//! Every step is total: an entity that would leave the coordinates of the
//! playfield stays where it is, a full counter stays full, and a step that
//! needs the one ball or the one paddle of a side does nothing while there
//! is none or more than one.

pub mod geometry;
pub mod world;
pub mod spawn;
pub mod kinematics;
pub mod collision;
pub mod scoring;
pub mod ai;
pub mod game;
