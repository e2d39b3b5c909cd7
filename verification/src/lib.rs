//! A terminal arcade game as a library: a ship at the bottom of a fixed
//! character grid fires shots at a swarm of invaders that sweeps from side
//! to side and descends.
//!
//! The library holds the whole simulation and decides what has to be written
//! to the terminal; it performs no input or output itself. A program around
//! it reads the clock and the keyboard, calls [`game::Game::tick`], plays the
//! sounds it reports and executes the drawing operations that
//! [`render::render`] returns.
use vstd::prelude::*;

pub mod audio;
pub mod frame;
pub mod game;
pub mod invaders;
pub mod player;
pub mod render;
pub mod shot;

verus! {

/// Number of rows of the grid.
pub const NUM_ROWS: usize = 20;

/// Number of columns of the grid.
pub const NUM_COLUMNS: usize = 40;

} // verus!
