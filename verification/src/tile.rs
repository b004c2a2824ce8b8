//! One cell of the board.

use vstd::prelude::*;
use crate::identity::Identity;
use crate::progression::Progress;

verus! {

/// What stands on a cell.
#[derive(Clone, Copy, Debug, PartialEq, Eq, Structural)]
pub enum TileKind {
    /// Nothing: the other fields of the tile carry no meaning.
    Empty,
    /// A player.
    Player,
    /// A monster.
    Enemy,
    /// A basic chest.
    ChestGold,
    /// A premium chest, whose gifts also reach the player's record.
    ChestBlue,
    /// The way down to the next floor.
    Stairs,
}

impl TileKind {
    /// The number under which the kind is stored: 0 for empty, 1 for a
    /// player, 2 for a monster, 3 for a basic chest, 4 for a premium chest,
    /// 5 for stairs.
    pub open spec fn spec_code(self) -> u8 {
        match self {
            TileKind::Empty => 0,
            TileKind::Player => 1,
            TileKind::Enemy => 2,
            TileKind::ChestGold => 3,
            TileKind::ChestBlue => 4,
            TileKind::Stairs => 5,
        }
    }

    /// The number under which the kind is stored.
    pub fn code(self) -> (r: u8)
        ensures
            r == self.spec_code(),
            r <= 5,
    {
        match self {
            TileKind::Empty => 0,
            TileKind::Player => 1,
            TileKind::Enemy => 2,
            TileKind::ChestGold => 3,
            TileKind::ChestBlue => 4,
            TileKind::Stairs => 5,
        }
    }

    /// The kind stored under `code`, if `code` is at most 5.
    pub fn from_code(code: u8) -> (r: Option<TileKind>)
        ensures
            r is Some <==> code <= 5,
            r is Some ==> r.unwrap().spec_code() == code,
    {
        match code {
            0 => Some(TileKind::Empty),
            1 => Some(TileKind::Player),
            2 => Some(TileKind::Enemy),
            3 => Some(TileKind::ChestGold),
            4 => Some(TileKind::ChestBlue),
            5 => Some(TileKind::Stairs),
            _ => None,
        }
    }

    /// Two kinds with the same number are the same kind.
    pub proof fn lemma_code_is_injective(a: TileKind, b: TileKind)
        ensures
            a.spec_code() == b.spec_code() <==> a == b,
    {
    }
}

/// A cell of the board: what stands on it, whose it is, and its stats.
#[derive(Clone, Copy, Debug, PartialEq, Eq)]
pub struct TileData {
    pub tile_type: TileKind,
    pub tile_level: u32,
    pub tile_owner: Identity,
    pub tile_xp: u32,
    pub tile_damage: u32,
    pub tile_defence: u32,
    pub tile_armor: u32,
    pub tile_max_armor: u32,
    pub tile_health: u32,
    pub tile_max_health: u32,
}

/// The copy of a tile that a player record carries from board to board.
#[derive(Clone, Copy, Debug, PartialEq, Eq)]
pub struct TileData2 {
    pub tile_type: TileKind,
    pub tile_level: u32,
    pub tile_owner: Identity,
    pub tile_xp: u32,
    pub tile_damage: u32,
    pub tile_defence: u32,
    pub tile_armor: u32,
    pub tile_max_armor: u32,
    pub tile_health: u32,
    pub tile_max_health: u32,
}

impl TileData {
    /// The zeroed tile: empty, owned by nobody, every stat 0.
    pub open spec fn zeroed() -> TileData {
        TileData {
            tile_type: TileKind::Empty,
            tile_level: 0,
            tile_owner: Identity::null(),
            tile_xp: 0,
            tile_damage: 0,
            tile_defence: 0,
            tile_armor: 0,
            tile_max_armor: 0,
            tile_health: 0,
            tile_max_health: 0,
        }
    }

    /// Whether nothing stands on the tile.
    pub open spec fn is_empty(&self) -> bool {
        self.tile_type == TileKind::Empty
    }

    /// Whether the tile is the living player tile of `who`.
    pub open spec fn is_player_of(&self, who: Identity) -> bool {
        self.tile_type == TileKind::Player && self.tile_owner == who
    }

    /// This tile with another kind and every other field kept.
    pub open spec fn with_kind(self, kind: TileKind) -> TileData {
        TileData { tile_type: kind, ..self }
    }

    /// The tile with its kind set to empty and nothing else touched: what
    /// a reset of the board leaves on a cell.
    pub open spec fn emptied(self) -> TileData {
        self.with_kind(TileKind::Empty)
    }

    /// The cleared tile that a unit leaves behind when it moves away, dies
    /// or is removed: empty and owned by nobody. Its stats stay in place;
    /// nothing reads them while the cell is empty.
    pub open spec fn vacated(self) -> TileData {
        TileData { tile_type: TileKind::Empty, tile_owner: Identity::null(), ..self }
    }

    /// Whether the tile is cleared: empty and owned by nobody.
    pub open spec fn is_cleared(&self) -> bool {
        self.tile_type == TileKind::Empty && self.tile_owner == Identity::null()
    }

    /// The tile that results when the player on `self` steps onto `target`:
    /// everything of the player's tile, as a player tile.
    pub open spec fn arrived(self) -> TileData {
        self.with_kind(TileKind::Player)
    }

    /// Whether each of damage, defence, health and maximal health can
    /// grow by one.
    pub open spec fn can_boost(self) -> bool {
        &&& self.tile_damage < u32::MAX
        &&& self.tile_defence < u32::MAX
        &&& self.tile_health < u32::MAX
        &&& self.tile_max_health < u32::MAX
    }

    /// This tile with one more point of damage, defence, health and
    /// maximal health.
    pub open spec fn boosted(self) -> TileData {
        TileData {
            tile_damage: (self.tile_damage + 1) as u32,
            tile_defence: (self.tile_defence + 1) as u32,
            tile_health: (self.tile_health + 1) as u32,
            tile_max_health: (self.tile_max_health + 1) as u32,
            ..self
        }
    }

    /// The stats that experience changes.
    pub open spec fn progress(self) -> Progress {
        Progress {
            level: self.tile_level,
            xp: self.tile_xp,
            health: self.tile_health,
            max_health: self.tile_max_health,
            damage: self.tile_damage,
        }
    }

    /// This tile with the stats that experience changes replaced.
    pub open spec fn with_progress(self, p: Progress) -> TileData {
        TileData {
            tile_level: p.level,
            tile_xp: p.xp,
            tile_health: p.health,
            tile_max_health: p.max_health,
            tile_damage: p.damage,
            ..self
        }
    }

    /// Reads the stats that experience changes.
    pub fn read_progress(&self) -> (r: Progress)
        ensures
            r == self.progress(),
    {
        Progress {
            level: self.tile_level,
            xp: self.tile_xp,
            health: self.tile_health,
            max_health: self.tile_max_health,
            damage: self.tile_damage,
        }
    }

    /// Tests [`TileData::can_boost`].
    pub fn has_room_to_boost(&self) -> (r: bool)
        ensures
            r == self.can_boost(),
    {
        self.tile_damage < u32::MAX && self.tile_defence < u32::MAX && self.tile_health < u32::MAX
            && self.tile_max_health < u32::MAX
    }

    /// Adds `amount` experience to the tile and takes every level it pays for.
    pub fn add_xp(&mut self, amount: u32)
        requires
            old(self).progress().fits(amount),
        ensures
            *final(self) == old(self).with_progress(old(self).progress().with_xp(amount)),
    {
        let after = self.read_progress().add_xp(amount);
        self.tile_level = after.level;
        self.tile_xp = after.xp;
        self.tile_health = after.health;
        self.tile_max_health = after.max_health;
        self.tile_damage = after.damage;
    }

    /// Executable test for [`TileData::is_player_of`].
    pub fn belongs_to(&self, who: &Identity) -> (r: bool)
        ensures
            r == self.is_player_of(*who),
    {
        match self.tile_type {
            TileKind::Player => self.tile_owner.same(who),
            _ => false,
        }
    }

    /// The copy of this tile that a player record keeps: the same fields.
    pub open spec fn copied(self) -> TileData2 {
        TileData2 {
            tile_type: self.tile_type,
            tile_level: self.tile_level,
            tile_owner: self.tile_owner,
            tile_xp: self.tile_xp,
            tile_damage: self.tile_damage,
            tile_defence: self.tile_defence,
            tile_armor: self.tile_armor,
            tile_max_armor: self.tile_max_armor,
            tile_health: self.tile_health,
            tile_max_health: self.tile_max_health,
        }
    }

    /// Takes the copy of this tile that a player record keeps.
    pub fn snapshot(&self) -> (r: TileData2)
        ensures
            r == self.copied(),
            r.restored() == *self,
    {
        TileData2 {
            tile_type: self.tile_type,
            tile_level: self.tile_level,
            tile_owner: self.tile_owner,
            tile_xp: self.tile_xp,
            tile_damage: self.tile_damage,
            tile_defence: self.tile_defence,
            tile_armor: self.tile_armor,
            tile_max_armor: self.tile_max_armor,
            tile_health: self.tile_health,
            tile_max_health: self.tile_max_health,
        }
    }
}

impl TileData2 {
    /// The tile this copy was taken from.
    pub open spec fn restored(self) -> TileData {
        TileData {
            tile_type: self.tile_type,
            tile_level: self.tile_level,
            tile_owner: self.tile_owner,
            tile_xp: self.tile_xp,
            tile_damage: self.tile_damage,
            tile_defence: self.tile_defence,
            tile_armor: self.tile_armor,
            tile_max_armor: self.tile_max_armor,
            tile_health: self.tile_health,
            tile_max_health: self.tile_max_health,
        }
    }

    /// Turns the copy back into a tile with the same fields.
    pub fn restore(&self) -> (r: TileData)
        ensures
            r == self.restored(),
    {
        TileData {
            tile_type: self.tile_type,
            tile_level: self.tile_level,
            tile_owner: self.tile_owner,
            tile_xp: self.tile_xp,
            tile_damage: self.tile_damage,
            tile_defence: self.tile_defence,
            tile_armor: self.tile_armor,
            tile_max_armor: self.tile_max_armor,
            tile_health: self.tile_health,
            tile_max_health: self.tile_max_health,
        }
    }
}

impl Default for TileData {
    /// The zeroed tile.
    fn default() -> (r: TileData)
        ensures
            r == TileData::zeroed(),
    {
        TileData {
            tile_type: TileKind::Empty,
            tile_level: 0,
            tile_owner: Identity::default(),
            tile_xp: 0,
            tile_damage: 0,
            tile_defence: 0,
            tile_armor: 0,
            tile_max_armor: 0,
            tile_health: 0,
            tile_max_health: 0,
        }
    }
}

impl Default for TileData2 {
    /// The copy of the zeroed tile.
    fn default() -> (r: TileData2)
        ensures
            r == TileData::zeroed().copied(),
    {
        TileData::default().snapshot()
    }
}

} // verus!
