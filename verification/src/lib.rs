//! A turn-resolved dungeon crawl on a fixed 10x10 board.
//!
//! The board holds players, monsters, chests and stairs. Every operation is
//! a total function of the board, the player record and its arguments: the
//! pseudo-random stream is seeded from values the caller can see, so a run
//! can be replayed exactly.
//!
//! The modules, leaves first: [`identity`], [`tile`] and [`action`] hold
//! the data; [`rng`] the stream; [`progression`] and [`player_data`] the
//! experience and energy of a player; [`combat`], [`loot`], [`movement`] and
//! [`spawn`] what can happen on a cell; [`game_data`] the board and its
//! history; [`moves`] a player's turn; [`instructions`] the requests that a
//! caller makes on behalf of a player.

pub mod action;
pub mod combat;
pub mod constants;
pub mod errors;
pub mod game_data;
pub mod identity;
pub mod instructions;
pub mod loot;
pub mod movement;
pub mod moves;
pub mod player_data;
pub mod progression;
pub mod rng;
pub mod spawn;
pub mod tile;

pub use crate::action::{ActionType, GameAction};
pub use crate::constants::{BOARD_SIZE_X, BOARD_SIZE_Y, MAX_ENERGY, TIME_TO_REFILL_ENERGY};
pub use crate::errors::GameErrorCode;
pub use crate::game_data::GameData;
pub use crate::identity::Identity;
pub use crate::player_data::PlayerData;
pub use crate::rng::{xorshift, XorShift64};
pub use crate::tile::{TileData, TileData2, TileKind};
