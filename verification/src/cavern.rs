//! The Cavern platformer: actors and their movement, fruit, orbs, bolts,
//! the level set-up and the game state machine.

pub mod actor;
pub mod collide_actor;
pub mod gravity_actor;
pub mod random;
pub mod resources;
pub mod pop;
pub mod robot;
pub mod player;
pub mod orb;
pub mod bolt;
pub mod fruit;
pub mod game;
pub mod global_state;
pub mod drawing;

use vstd::prelude::*;

verus! {

/// The window width, in pixels.
pub const WIDTH: i32 = 800;
/// The window height, in pixels.
pub const HEIGHT: i32 = 480;
/// The number of rows of a level grid.
pub const NUM_ROWS: i32 = 18;
/// The number of columns of a level grid.
pub const NUM_COLUMNS: i32 = 28;
/// The x coordinate of the level grid's left edge.
pub const LEVEL_X_OFFSET: i32 = 50;
/// The side of a grid block, in pixels.
pub const GRID_BLOCK_SIZE: i32 = 25;

} // verus!
