//! The ways an operation can be refused.

use vstd::prelude::*;

verus! {

/// Why an operation was refused. A refused operation changes nothing.
#[derive(Clone, Copy, Debug, PartialEq, Eq, Structural)]
pub enum GameErrorCode {
    /// The player has no energy left to act.
    NotEnoughEnergy,
    /// The acting party may not act for this player.
    WrongAuthority,
    /// A move was asked for a player that has no tile on the board.
    PlayerNotOnBoard,
    /// The coordinates lie outside the board.
    OutOfBounds,
    /// A spawn was asked for a player that already has a tile on the board.
    PlayerAlreadyExists,
    /// No empty cell is left to place the player on.
    BoardIsFull,
    /// The player already stands on the target cell.
    PlayerIsAlreadyOnThisTile,
}

impl GameErrorCode {
    /// The text that describes the refusal.
    pub open spec fn text(self) -> Seq<char> {
        match self {
            GameErrorCode::NotEnoughEnergy => "Not enough energy"@,
            GameErrorCode::WrongAuthority => "Wrong Authority"@,
            GameErrorCode::PlayerNotOnBoard => "Player not on board"@,
            GameErrorCode::OutOfBounds => "Out of bounds"@,
            GameErrorCode::PlayerAlreadyExists => "PlayerAlreadyExists"@,
            GameErrorCode::BoardIsFull => "BoardIsFull"@,
            GameErrorCode::PlayerIsAlreadyOnThisTile => "PlayerIsAlreadyOnThisTile"@,
        }
    }

    /// The text that describes the refusal.
    pub fn message(self) -> (r: &'static str)
        ensures
            r@ == self.text(),
    {
        match self {
            GameErrorCode::NotEnoughEnergy => "Not enough energy",
            GameErrorCode::WrongAuthority => "Wrong Authority",
            GameErrorCode::PlayerNotOnBoard => "Player not on board",
            GameErrorCode::OutOfBounds => "Out of bounds",
            GameErrorCode::PlayerAlreadyExists => "PlayerAlreadyExists",
            GameErrorCode::BoardIsFull => "BoardIsFull",
            GameErrorCode::PlayerIsAlreadyOnThisTile => "PlayerIsAlreadyOnThisTile",
        }
    }
}

} // verus!
