//! Fixed sizes and rates of the game.

use vstd::prelude::*;

verus! {

/// Number of rows of the board.
pub const BOARD_SIZE_X: usize = 10;

/// Number of columns of the board.
pub const BOARD_SIZE_Y: usize = 10;

/// Most energy a player can hold.
pub const MAX_ENERGY: u32 = 10;

/// Seconds it takes to regain one point of energy.
pub const TIME_TO_REFILL_ENERGY: i64 = 600;

} // verus!
