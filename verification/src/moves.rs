//! A player's turn: entering the board, or stepping onto a cell and
//! meeting what stands there.

use vstd::prelude::*;
use crate::action::{ActionType, GameAction};
use crate::combat::{board_after_fight, can_fight, damage_to, fight_enemy, fight_fits, fight_length, fought, lemma_after_hits_keeps, player_after_fight, ready, rewarded};
use crate::errors::GameErrorCode;
use crate::game_data::GameData;
use crate::identity::Identity;
use crate::loot::{board_after_chest, can_open_chest, chest_fits, is_chest, open_chest, player_after_chest};
use crate::movement::move_player;
use crate::player_data::PlayerData;
use crate::rng::XorShift64;
use crate::spawn::{keeps_to_free_cells, lemma_placed, lemma_populated, lemma_populated_adds_no_player, pick, place, placed, populate, populated, SpawnState};
use crate::tile::{TileData, TileKind};

verus! {

/// Whether a unit that steps onto a tile of this kind fights what stands there.
pub open spec fn is_opponent(kind: TileKind) -> bool {
    kind == TileKind::Enemy || kind == TileKind::Player
}

/// The tile with which a player enters the board: the stats of their
/// record, at full health and without armor.
pub open spec fn entering_tile(player: PlayerData) -> TileData {
    TileData {
        tile_type: TileKind::Player,
        tile_level: player.level,
        tile_owner: player.authority,
        tile_xp: player.xp,
        tile_damage: player.damage,
        tile_defence: player.defence,
        tile_armor: 0,
        tile_max_armor: 0,
        tile_health: player.max_health,
        tile_max_health: player.max_health,
    }
}

/// The record of the unit at (`px`, `py`) opening the chest at
/// (`x`, `y`), with the chest as it stood there.
pub open spec fn chest_record(id: u64, px: int, py: int, x: int, y: int, chest: TileData) -> GameAction {
    GameAction {
        action_id: id,
        action_type: ActionType::OpenChest,
        from_x: px as u8,
        from_y: py as u8,
        to_x: x as u8,
        to_y: y as u8,
        tile: chest,
        amount: 0,
    }
}

/// The record of a move from (`px`, `py`) to (`x`, `y`), with the tile
/// that stands on the target once the move is done.
pub open spec fn move_record(id: u64, px: int, py: int, x: int, y: int, tile: TileData) -> GameAction {
    GameAction {
        action_id: id,
        action_type: ActionType::Move,
        from_x: px as u8,
        from_y: py as u8,
        to_x: x as u8,
        to_y: y as u8,
        tile,
        amount: 0,
    }
}

impl GameData {
    /// Why the turn is refused, if it is.
    pub open spec fn move_error(&self, who: Identity, x: u64, y: u64, spawn: bool) -> Option<GameErrorCode> {
        if x >= 10 || y >= 10 {
            Some(GameErrorCode::OutOfBounds)
        } else if self.has_player(who) {
            if spawn {
                Some(GameErrorCode::PlayerAlreadyExists)
            } else if self.player_position(who) == Some((x as usize, y as usize)) {
                Some(GameErrorCode::PlayerIsAlreadyOnThisTile)
            } else {
                None
            }
        } else if !spawn {
            Some(GameErrorCode::PlayerNotOnBoard)
        } else if self.empty_slots().len() == 0 {
            Some(GameErrorCode::BoardIsFull)
        } else {
            None
        }
    }

    /// The batch that lets `player` enter the board: their tile is
    /// placed, and the board is populated around it with up to two monsters
    /// of the floor the player is on and a premium chest if the draw exceeds
    /// 70. The stream is seeded with the number of empty cells plus the
    /// health on the player's record.
    pub open spec fn after_entering(self, player: PlayerData) -> SpawnState {
        let pool = self.empty_slots();
        let start = SpawnState { board: self, pool, rng: (pool.len() + player.health) as u64 };
        populated(
            placed(start, entering_tile(player)),
            self.num_enemies() >= 6,
            self.has_stairs(),
            player.authority,
            player.current_floor as u32,
            2,
            70,
            true,
        )
    }

    /// The cell on which `player` enters the board.
    pub open spec fn entry_slot(self, player: PlayerData) -> (usize, usize) {
        let pool = self.empty_slots();
        pool[pick(SpawnState { board: self, pool, rng: (pool.len() + player.health) as u64 })]
    }

    /// The board after the unit at (`px`, `py`) stepped onto (`x`, `y`)
    /// and met what stands there, before the move itself is recorded: a
    /// chest is recorded and opened, an empty cell is moved to, a monster or
    /// a player is fought, and stairs leave the board as it is.
    pub open spec fn resolved(self, px: int, py: int, x: int, y: int) -> GameData {
        let target = self.tile(x, y);
        if is_chest(target.tile_type) {
            board_after_chest(self.logged(chest_record(self.id_counter, px, py, x, y, target)), px, py, x, y)
        } else if target.tile_type == TileKind::Empty {
            self.moved(px, py, x, y)
        } else if is_opponent(target.tile_type) {
            board_after_fight(self, px, py, x, y)
        } else {
            self
        }
    }

    /// The player's record after their unit at (`px`, `py`) stepped onto
    /// (`x`, `y`) and met what stands there.
    pub open spec fn player_resolved(self, player: PlayerData, px: int, py: int, x: int, y: int) -> PlayerData {
        let target = self.tile(x, y);
        if is_chest(target.tile_type) {
            player_after_chest(player, target.tile_type)
        } else if is_opponent(target.tile_type) {
            player_after_fight(player, self, px, py, x, y)
        } else {
            player
        }
    }

    /// Whether every number stays in range during a turn that is not
    /// refused: the move can be recorded, and what the unit meets on the
    /// target fits.
    pub open spec fn move_fits(&self, player: PlayerData, x: u64, y: u64, spawn: bool) -> bool {
        self.move_error(player.authority, x, y, spawn) is None ==> {
            &&& self.log_fits()
            &&& self.has_player(player.authority) ==> {
                let at = self.player_position(player.authority).unwrap();
                let target = self.tile(x as int, y as int);
                &&& is_chest(target.tile_type) ==> chest_fits(player, *self, at.0 as int, at.1 as int, x as int, y as int)
                &&& is_opponent(target.tile_type) ==> fight_fits(
                    player,
                    *self,
                    at.0 as int,
                    at.1 as int,
                    x as int,
                    y as int,
                )
            }
        }
    }

    /// Tests [`GameData::move_fits`].
    pub fn can_move(&self, player: &PlayerData, x: u64, y: u64, spawn: bool) -> (r: bool)
        ensures
            r == self.move_fits(*player, x, y, spawn),
    {
        if x >= 10 || y >= 10 {
            return true;
        }
        let to_x: usize = x as usize;
        let to_y: usize = y as usize;
        let census = self.census(&player.authority);
        match census.player {
            None => !spawn || census.empty_slots.len() == 0 || self.can_log(),
            Some(at) => {
                if spawn || (to_x == at.0 && to_y == at.1) {
                    true
                } else if !self.can_log() {
                    false
                } else {
                    match self.data[to_x][to_y].tile_type {
                        TileKind::ChestGold => can_open_chest(player, self, at.0, at.1, to_x, to_y),
                        TileKind::ChestBlue => can_open_chest(player, self, at.0, at.1, to_x, to_y),
                        TileKind::Enemy => can_fight(player, self, at.0, at.1, to_x, to_y),
                        TileKind::Player => can_fight(player, self, at.0, at.1, to_x, to_y),
                        _ => true,
                    }
                }
            },
        }
    }

    /// The board after a turn that is not refused: the player's unit met
    /// what stands on (`x`, `y`), or the player entered the board; then the
    /// move is recorded with the tile that now stands on (`x`, `y`).
    pub open spec fn board_after_move(self, player: PlayerData, x: u64, y: u64) -> GameData {
        if self.has_player(player.authority) {
            let at = self.player_position(player.authority).unwrap();
            let board = self.resolved(at.0 as int, at.1 as int, x as int, y as int);
            board.logged(
                move_record(board.id_counter, at.0 as int, at.1 as int, x as int, y as int, board.tile(x as int, y as int)),
            )
        } else {
            let board = self.after_entering(player).board;
            board.logged(move_record(board.id_counter, 0, 0, x as int, y as int, board.tile(x as int, y as int)))
        }
    }

    /// The player's record after a turn that is not refused: what the
    /// meeting did to it, and a copy of the tile that stands where the turn
    /// ended. After a lost fight that is the tile of the winner.
    pub open spec fn player_after_move(self, player: PlayerData, x: u64, y: u64) -> PlayerData {
        if self.has_player(player.authority) {
            let at = self.player_position(player.authority).unwrap();
            let board = self.resolved(at.0 as int, at.1 as int, x as int, y as int);
            PlayerData {
                tile_data: board.tile(x as int, y as int).copied(),
                ..self.player_resolved(player, at.0 as int, at.1 as int, x as int, y as int)
            }
        } else {
            let slot = self.entry_slot(player);
            PlayerData { tile_data: self.after_entering(player).board.tile(slot.0 as int, slot.1 as int).copied(), ..player }
        }
    }

    /// Entering the board writes only to cells that were empty and leaves
    /// the history alone. When the batch is done the player's tile stands
    /// where it was put: nothing that spawned after it has taken its cell.
    pub proof fn lemma_entering_keeps_to_free_cells(self, player: PlayerData)
        requires
            self.empty_slots().len() > 0,
        ensures
            keeps_to_free_cells(self.after_entering(player), self),
            self.entry_slot(player).0 < 10 && self.entry_slot(player).1 < 10,
            self.tile(self.entry_slot(player).0 as int, self.entry_slot(player).1 as int).is_empty(),
            self.after_entering(player).board.tile(
                self.entry_slot(player).0 as int,
                self.entry_slot(player).1 as int,
            ) == entering_tile(player),
    {
        let pool = self.empty_slots();
        let start = SpawnState { board: self, pool, rng: (pool.len() + player.health) as u64 };
        self.lemma_batch_starts_on_free_cells(start.rng);
        lemma_placed(start, self, entering_tile(player));
        lemma_populated(
            placed(start, entering_tile(player)),
            self,
            self.num_enemies() >= 6,
            self.has_stairs(),
            player.authority,
            player.current_floor as u32,
            2,
            70,
            true,
            self.entry_slot(player),
        );
    }

    /// A player who has entered the board carries, on their record, a copy
    /// of the tile they entered with.
    pub proof fn lemma_entering_copies_own_tile(self, player: PlayerData, x: u64, y: u64)
        requires
            self.move_error(player.authority, x, y, true) is None,
        ensures
            self.player_after_move(player, x, y) == (PlayerData {
                tile_data: entering_tile(player).copied(),
                ..player
            }),
    {
        self.lemma_entering_keeps_to_free_cells(player);
    }

    /// Stepping onto a cell and meeting what stands there leaves no player
    /// with more than one living tile, if none had more before.
    pub proof fn lemma_step_keeps_one_tile_each(self, who: Identity, px: int, py: int, x: int, y: int)
        requires
            self.one_tile_each(),
            0 <= px < 10,
            0 <= py < 10,
            0 <= x < 10,
            0 <= y < 10,
            px != x || py != y,
            self.tile(px, py).is_player_of(who),
        ensures
            self.resolved(px, py, x, y).one_tile_each(),
    {
        let unit = self.tile(px, py);
        let target = self.tile(x, y);
        let board = self.resolved(px, py, x, y);
        if is_chest(target.tile_type) {
            let noted = self.logged(chest_record(self.id_counter, px, py, x, y, target));
            let gifted = unit.boosted();
            let ready_board = noted.with_tile(px, py, gifted);
            noted.lemma_with_tile(px, py, gifted);
            ready_board.lemma_moved(px, py, x, y);
            assert forall|i: int, j: int| 0 <= i < 10 && 0 <= j < 10 implies #[trigger] board.tile(i, j) == (if i == px && j
                == py {
                gifted.vacated()
            } else if i == x && j == y {
                gifted.arrived()
            } else {
                self.tile(i, j)
            }) by {
                assert(noted.tile(i, j) == self.tile(i, j));
            }
            self.lemma_one_tile_each_after_arrival(board, px, py, x, y, gifted.arrived());
        } else if target.tile_type == TileKind::Empty {
            self.lemma_moved(px, py, x, y);
            self.lemma_one_tile_each_after_arrival(board, px, py, x, y, unit.arrived());
        } else if is_opponent(target.tile_type) {
            let (fighter, foe) = fought(unit, target);
            lemma_after_hits_keeps(ready(unit), damage_to(unit, target), fight_length(unit, target));
            lemma_after_hits_keeps(ready(target), damage_to(target, unit), fight_length(unit, target));
            let after = self.with_tile(px, py, fighter).with_tile(x, y, foe);
            self.lemma_with_tile(px, py, fighter);
            self.with_tile(px, py, fighter).lemma_with_tile(x, y, foe);
            if fighter.tile_health == 0 {
                let cleared = after.with_tile(px, py, fighter.vacated());
                after.lemma_with_tile(px, py, fighter.vacated());
                assert forall|i: int, j: int| 0 <= i < 10 && 0 <= j < 10 implies #[trigger] board.tile(i, j) == (if i == px
                    && j == py {
                    fighter.vacated()
                } else if i == x && j == y {
                    foe
                } else {
                    self.tile(i, j)
                }) by {
                    assert(board.tile(i, j) == cleared.tile(i, j));
                }
                assert forall|i: int, j: int, k: int, l: int|
                    0 <= i < 10 && 0 <= j < 10 && 0 <= k < 10 && 0 <= l < 10 && (#[trigger] board.tile(i, j)).tile_type
                        == TileKind::Player && (#[trigger] board.tile(k, l)).tile_type == TileKind::Player && board.tile(
                        i,
                        j,
                    ).tile_owner == board.tile(k, l).tile_owner implies i == k && j == l by {
                    assert(self.tile(i, j).tile_type == TileKind::Player);
                    assert(self.tile(k, l).tile_type == TileKind::Player);
                    assert(self.tile(i, j).tile_owner == self.tile(k, l).tile_owner);
                }
            } else {
                let grown = rewarded(fighter, foe);
                let ready_board = after.with_tile(px, py, grown);
                after.lemma_with_tile(px, py, grown);
                ready_board.lemma_moved(px, py, x, y);
                assert forall|i: int, j: int| 0 <= i < 10 && 0 <= j < 10 implies #[trigger] board.tile(i, j) == (if i == px
                    && j == py {
                    grown.vacated()
                } else if i == x && j == y {
                    grown.arrived()
                } else {
                    self.tile(i, j)
                }) by {}
                self.lemma_one_tile_each_after_arrival(board, px, py, x, y, grown.arrived());
            }
        }
    }

    /// If a board differs from this one only in that the player tile at
    /// (`px`, `py`) has been emptied and a player tile of the same owner
    /// stands on (`x`, `y`), it has no player with more than one living tile,
    /// if this one had none.
    pub proof fn lemma_one_tile_each_after_arrival(self, after: GameData, px: int, py: int, x: int, y: int, arrived: TileData)
        requires
            self.one_tile_each(),
            0 <= px < 10,
            0 <= py < 10,
            0 <= x < 10,
            0 <= y < 10,
            px != x || py != y,
            self.tile(px, py).tile_type == TileKind::Player,
            arrived.tile_owner == self.tile(px, py).tile_owner,
            after.tile(px, py).tile_type == TileKind::Empty,
            after.tile(x, y) == arrived,
            forall|i: int, j: int|
                0 <= i < 10 && 0 <= j < 10 && !(i == px && j == py) && !(i == x && j == y) ==> #[trigger] after.tile(i, j)
                    == self.tile(i, j),
        ensures
            after.one_tile_each(),
    {
        assert forall|i: int, j: int, k: int, l: int|
            0 <= i < 10 && 0 <= j < 10 && 0 <= k < 10 && 0 <= l < 10 && (#[trigger] after.tile(i, j)).tile_type
                == TileKind::Player && (#[trigger] after.tile(k, l)).tile_type == TileKind::Player && after.tile(
                i,
                j,
            ).tile_owner == after.tile(k, l).tile_owner implies i == k && j == l by {
            let home = self.tile(px, py);
            if i == x && j == y {
                if !(k == x && l == y) {
                    assert(self.tile(k, l).tile_owner == home.tile_owner);
                }
            } else if k == x && l == y {
                assert(self.tile(i, j).tile_owner == home.tile_owner);
            } else {
                assert(self.tile(i, j).tile_owner == self.tile(k, l).tile_owner);
            }
        }
    }

    /// A turn leaves no player with more than one living tile, if none had
    /// more before: a player enters only a board they are not on, a step
    /// takes their tile along, and nothing else that spawns is a player.
    pub proof fn lemma_turn_keeps_one_tile_each(self, player: PlayerData, x: u64, y: u64, spawn: bool)
        requires
            self.one_tile_each(),
            self.move_error(player.authority, x, y, spawn) is None,
        ensures
            self.board_after_move(player, x, y).one_tile_each(),
    {
        let who = player.authority;
        let last = self.board_after_move(player, x, y);
        if self.has_player(who) {
            self.lemma_player_position(who);
            let at = self.last_player_upto(who, 100);
            let board = self.resolved(at / 10, at % 10, x as int, y as int);
            self.lemma_step_keeps_one_tile_each(who, at / 10, at % 10, x as int, y as int);
            assert forall|i: int, j: int| 0 <= i < 10 && 0 <= j < 10 implies #[trigger] last.tile(i, j) == board.tile(i, j) by {}
            assert forall|i: int, j: int, k: int, l: int|
                0 <= i < 10 && 0 <= j < 10 && 0 <= k < 10 && 0 <= l < 10 && (#[trigger] last.tile(i, j)).tile_type
                    == TileKind::Player && (#[trigger] last.tile(k, l)).tile_type == TileKind::Player && last.tile(
                    i,
                    j,
                ).tile_owner == last.tile(k, l).tile_owner implies i == k && j == l by {
                assert(board.tile(i, j).tile_owner == board.tile(k, l).tile_owner);
            }
        } else {
            let pool = self.empty_slots();
            let start = SpawnState { board: self, pool, rng: (pool.len() + player.health) as u64 };
            let first = placed(start, entering_tile(player));
            let home = self.entry_slot(player);
            let board = self.after_entering(player).board;
            self.lemma_absent_player(who);
            self.lemma_batch_starts_on_free_cells(start.rng);
            lemma_placed(start, self, entering_tile(player));
            self.lemma_with_tile(home.0 as int, home.1 as int, entering_tile(player));
            lemma_populated_adds_no_player(
                first,
                self,
                self.num_enemies() >= 6,
                self.has_stairs(),
                who,
                player.current_floor as u32,
                2,
                70,
                true,
            );
            assert forall|i: int, j: int| 0 <= i < 10 && 0 <= j < 10 implies #[trigger] last.tile(i, j) == board.tile(i, j) by {}
            assert forall|i: int, j: int, k: int, l: int|
                0 <= i < 10 && 0 <= j < 10 && 0 <= k < 10 && 0 <= l < 10 && (#[trigger] last.tile(i, j)).tile_type
                    == TileKind::Player && (#[trigger] last.tile(k, l)).tile_type == TileKind::Player && last.tile(
                    i,
                    j,
                ).tile_owner == last.tile(k, l).tile_owner implies i == k && j == l by {
                assert(board.tile(i, j) == first.board.tile(i, j));
                assert(board.tile(k, l) == first.board.tile(k, l));
                if !(i == home.0 && j == home.1) && !(k == home.0 && l == home.1) {
                    assert(self.tile(i, j).tile_owner == self.tile(k, l).tile_owner);
                }
            }
        }
    }

    /// A turn aimed at a cell outside the board is refused as out of
    /// bounds, whoever plays it and whatever the board holds.
    pub proof fn lemma_outside_is_refused(self, who: Identity, x: u64, y: u64, spawn: bool)
        requires
            x >= 10 || y >= 10,
        ensures
            self.move_error(who, x, y, spawn) == Some(GameErrorCode::OutOfBounds),
    {
    }

    /// A player who has a living tile on the board cannot enter it again.
    pub proof fn lemma_present_player_cannot_enter(self, who: Identity, x: u64, y: u64)
        requires
            self.has_player(who),
            x < 10,
            y < 10,
        ensures
            self.move_error(who, x, y, true) == Some(GameErrorCode::PlayerAlreadyExists),
            self.spawn_error(who) == Some(GameErrorCode::PlayerAlreadyExists),
    {
    }

    /// A board without an empty cell refuses, as full, every player who is
    /// not on it yet.
    pub proof fn lemma_full_board_refuses_entry(self, who: Identity, x: u64, y: u64)
        requires
            forall|c: int| 0 <= c < 100 ==> !(#[trigger] self.cells()[c]).is_empty(),
            !self.has_player(who),
            x < 10,
            y < 10,
        ensures
            self.move_error(who, x, y, true) == Some(GameErrorCode::BoardIsFull),
            self.spawn_error(who) == Some(GameErrorCode::BoardIsFull),
    {
        self.lemma_empty_slots(100);
    }

    /// A player without a living tile on the board cannot move on it.
    pub proof fn lemma_absent_player_cannot_move(self, who: Identity, x: u64, y: u64)
        requires
            !self.has_player(who),
            x < 10,
            y < 10,
        ensures
            self.move_error(who, x, y, false) == Some(GameErrorCode::PlayerNotOnBoard),
    {
    }

    /// Plays one turn of `player`.
    ///
    /// With `spawn` unset, the player's unit steps onto (`x`, `y`) and meets
    /// what stands there. With `spawn` set, the player enters the board on a
    /// free cell chosen by the stream and the board is populated around
    /// them. Either way the move to (`x`, `y`) is recorded, and the record of
    /// the player receives a copy of the tile that stands where the turn
    /// ended: on (`x`, `y`) after a step, on the cell of entry after an entry.
    /// A refused turn changes neither the board nor the record.
    pub fn move_to_tile(&mut self, x: u64, y: u64, player: &mut PlayerData, spawn: bool) -> (r: Result<
        (),
        GameErrorCode,
    >)
        requires
            old(self).move_fits(*old(player), x, y, spawn),
        ensures
            r == (match old(self).move_error(old(player).authority, x, y, spawn) {
                Some(e) => Err::<(), GameErrorCode>(e),
                None => Ok(()),
            }),
            r is Err ==> *final(self) == *old(self) && *final(player) == *old(player),
            r is Ok ==> *final(self) == old(self).board_after_move(*old(player), x, y),
            r is Ok ==> *final(player) == old(self).player_after_move(*old(player), x, y),
            r is Ok ==> final(self).wf(),
            old(self).wf() ==> final(self).wf(),
            old(player).wf() ==> final(player).wf(),
            r is Ok && old(self).has_player(old(player).authority) && old(self).tile(x as int, y as int).tile_type
                != TileKind::Stairs ==> final(self).tile(
                old(self).player_position(old(player).authority).unwrap().0 as int,
                old(self).player_position(old(player).authority).unwrap().1 as int,
            ).is_cleared(),
    {
        if x >= 10 || y >= 10 {
            return Err(GameErrorCode::OutOfBounds);
        }
        let to_x: usize = x as usize;
        let to_y: usize = y as usize;
        let who: Identity = player.authority;
        let census = self.census(&who);
        let from: (usize, usize);
        let end: (usize, usize);
        match census.player {
            Some(at) => {
                if spawn {
                    return Err(GameErrorCode::PlayerAlreadyExists);
                }
                if to_x == at.0 && to_y == at.1 {
                    return Err(GameErrorCode::PlayerIsAlreadyOnThisTile);
                }
                let target_tile: TileData = self.data[to_x][to_y];
                match target_tile.tile_type {
                    TileKind::ChestGold => {
                        self.record_chest(at.0, at.1, to_x, to_y, target_tile);
                        let _ = open_chest(player, self, at.0, at.1, to_x, to_y);
                    },
                    TileKind::ChestBlue => {
                        self.record_chest(at.0, at.1, to_x, to_y, target_tile);
                        let _ = open_chest(player, self, at.0, at.1, to_x, to_y);
                    },
                    TileKind::Empty => {
                        let _ = move_player(self, at.0, at.1, to_x, to_y);
                    },
                    TileKind::Enemy => {
                        let _ = fight_enemy(player, self, at.0, at.1, to_x, to_y);
                    },
                    TileKind::Player => {
                        let _ = fight_enemy(player, self, at.0, at.1, to_x, to_y);
                    },
                    TileKind::Stairs => {},
                }
                from = at;
                end = (to_x, to_y);
            },
            None => {
                if !spawn {
                    return Err(GameErrorCode::PlayerNotOnBoard);
                }
                let mut empty_slots = census.empty_slots;
                if empty_slots.len() == 0 {
                    return Err(GameErrorCode::BoardIsFull);
                }
                let mut rng = XorShift64 { a: empty_slots.len() as u64 + player.health as u64 };
                let entering = TileData {
                    tile_type: TileKind::Player,
                    tile_level: player.level,
                    tile_owner: who,
                    tile_xp: player.xp,
                    tile_damage: player.damage,
                    tile_defence: player.defence,
                    tile_armor: 0,
                    tile_max_armor: 0,
                    tile_health: player.max_health,
                    tile_max_health: player.max_health,
                };
                let slot = place(self, &mut empty_slots, &mut rng, entering);
                populate(
                    self,
                    &mut empty_slots,
                    &mut rng,
                    census.num_enemies >= 6,
                    census.has_stairs,
                    who,
                    player.current_floor as u32,
                    2,
                    70,
                    true,
                );
                from = (0, 0);
                end = slot;
            },
        }
        let new_game_action = GameAction {
            action_id: self.id_counter,
            action_type: ActionType::Move,
            from_x: from.0 as u8,
            from_y: from.1 as u8,
            to_x: to_x as u8,
            to_y: to_y as u8,
            tile: self.data[to_x][to_y],
            amount: 0,
        };
        self.add_new_game_action(new_game_action);
        player.tile_data = self.data[end.0][end.1].snapshot();
        Ok(())
    }

    /// Records that the unit at (`px`, `py`) opens the chest at (`x`, `y`).
    fn record_chest(&mut self, px: usize, py: usize, x: usize, y: usize, chest: TileData)
        requires
            old(self).log_fits(),
            px < 10,
            py < 10,
            x < 10,
            y < 10,
        ensures
            *final(self) == old(self).logged(
                chest_record(old(self).id_counter, px as int, py as int, x as int, y as int, chest),
            ),
            final(self).wf(),
    {
        let new_game_action = GameAction {
            action_id: self.id_counter,
            action_type: ActionType::OpenChest,
            from_x: px as u8,
            from_y: py as u8,
            to_x: x as u8,
            to_y: y as u8,
            tile: chest,
            amount: 0,
        };
        self.add_new_game_action(new_game_action);
    }
}

} // verus!
