//! The records the board keeps of what happened on it.

use vstd::prelude::*;
use crate::tile::TileData;

verus! {

/// What kind of event a record describes.
#[derive(Clone, Copy, Debug, PartialEq, Eq, Structural)]
pub enum ActionType {
    /// A unit moved, or a player entered the board.
    Move,
    /// Two units fought.
    Fight,
    /// A chest was opened.
    OpenChest,
    /// The board was reset.
    Reset,
    /// A player lost a fight.
    PlayerDied,
}

impl ActionType {
    /// The number under which the type is stored: 0 for a move, 1 for a
    /// fight, 2 for a chest, 3 for a reset, 4 for a death.
    pub open spec fn spec_code(self) -> u8 {
        match self {
            ActionType::Move => 0,
            ActionType::Fight => 1,
            ActionType::OpenChest => 2,
            ActionType::Reset => 3,
            ActionType::PlayerDied => 4,
        }
    }

    /// The number under which the type is stored.
    pub fn code(self) -> (r: u8)
        ensures
            r == self.spec_code(),
            r <= 4,
    {
        match self {
            ActionType::Move => 0,
            ActionType::Fight => 1,
            ActionType::OpenChest => 2,
            ActionType::Reset => 3,
            ActionType::PlayerDied => 4,
        }
    }

    /// The type stored under `code`, if `code` is at most 4.
    pub fn from_code(code: u8) -> (r: Option<ActionType>)
        ensures
            r is Some <==> code <= 4,
            r is Some ==> r.unwrap().spec_code() == code,
    {
        match code {
            0 => Some(ActionType::Move),
            1 => Some(ActionType::Fight),
            2 => Some(ActionType::OpenChest),
            3 => Some(ActionType::Reset),
            4 => Some(ActionType::PlayerDied),
            _ => None,
        }
    }

    /// Two types with the same number are the same type.
    pub proof fn lemma_code_is_injective(a: ActionType, b: ActionType)
        ensures
            a.spec_code() == b.spec_code() <==> a == b,
    {
    }
}

/// One entry of the board's history. Once written it is only ever replaced
/// as a whole, when the history wraps around.
#[derive(Clone, Copy, Debug, PartialEq, Eq)]
pub struct GameAction {
    pub action_id: u64,
    pub action_type: ActionType,
    pub from_x: u8,
    pub from_y: u8,
    pub to_x: u8,
    pub to_y: u8,
    pub tile: TileData,
    pub amount: u64,
}

impl GameAction {
    /// The blank record that fills a history nothing was written to.
    pub open spec fn blank() -> GameAction {
        GameAction {
            action_id: 0,
            action_type: ActionType::Move,
            from_x: 0,
            from_y: 0,
            to_x: 0,
            to_y: 0,
            tile: TileData::zeroed(),
            amount: 0,
        }
    }
}

impl Default for GameAction {
    /// The blank record.
    fn default() -> (r: GameAction)
        ensures
            r == GameAction::blank(),
    {
        GameAction {
            action_id: 0,
            action_type: ActionType::Move,
            from_x: 0,
            from_y: 0,
            to_x: 0,
            to_y: 0,
            tile: TileData::default(),
            amount: 0,
        }
    }
}

} // verus!
