//! The rules of a block-breaking arcade game, on an integer lattice.
//!
//! A paddle at the bottom of the screen deflects bouncing balls into a grid
//! of blocks. Every position is a whole number of world units, every
//! velocity component a whole number of thousandths and every time step a
//! whole number of microseconds, so that a frame's displacement is an exact
//! product and the simulation is the same on every machine.
//!
//! `units` holds the measures, `geometry` the rectangles, `collision` the
//! rule by which a ball bounces off a rectangle. `player`, `block` and
//! `ball` hold the entities, `sweep` a ball's pass over the blocks, and
//! `game` the session: its states and the steps of a frame. Every function
//! states what it computes over spec functions of the same module, and the
//! laws of the game are proof functions named `law_...`.

pub mod units;
pub mod geometry;
pub mod sqrt;
pub mod collision;
pub mod player;
pub mod block;
pub mod random;
pub mod ball;
pub mod sweep;
pub mod game;
