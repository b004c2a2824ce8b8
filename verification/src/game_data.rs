//! The board: its cells, its history, and the operations on them.

use vstd::prelude::*;
use crate::action::GameAction;
use crate::errors::GameErrorCode;
use crate::identity::Identity;
use crate::tile::{TileData, TileKind};

verus! {

/// The 10x10 board with its history of the last 20 actions.
#[derive(Clone, Copy, Debug, PartialEq, Eq)]
pub struct GameData {
    /// Counts the actions recorded so far; starts again at 0 after the largest value.
    pub id_counter: u64,
    /// The slot of the history that was written last.
    pub action_index: u64,
    /// The cells, by row and column.
    pub data: [[TileData; 10]; 10],
    /// Resources collected on this board. No operation changes it.
    pub total_wood_collected: u64,
    /// The history, used as a ring.
    pub game_actions: [GameAction; 20],
    /// The number of the floor this board is.
    pub floor_id: u32,
    /// The player who opened this board.
    pub owner: Identity,
}

/// The board `g` with the cell in row `x`, column `y` replaced by `t`.
pub open spec fn grid_with(g: [[TileData; 10]; 10], x: int, y: int, t: TileData) -> [[TileData; 10]; 10] {
    vstd::array::spec_array_update(g, x, vstd::array::spec_array_update(g[x], y, t))
}

/// Reading a cell of a grid in which one cell was replaced.
pub proof fn lemma_grid_with(g: [[TileData; 10]; 10], x: int, y: int, t: TileData, i: int, j: int)
    requires
        0 <= x < 10,
        0 <= y < 10,
        0 <= i < 10,
        0 <= j < 10,
    ensures
        grid_with(g, x, y, t)[i][j] == (if i == x && j == y { t } else { g[i][j] }),
{
    broadcast use vstd::array::group_array_axioms;
}

impl GameData {
    /// The history's write position lies inside the ring. A new board is
    /// so, every operation keeps a board so, and writing a record makes any
    /// board so.
    pub open spec fn wf(&self) -> bool {
        self.action_index < 20
    }

    /// Whether a record can be written: the write position can advance
    /// without leaving the range of its number.
    pub open spec fn log_fits(&self) -> bool {
        self.action_index < u64::MAX
    }

    /// Tests [`GameData::log_fits`].
    pub fn can_log(&self) -> (r: bool)
        ensures
            r == self.log_fits(),
    {
        self.action_index < u64::MAX
    }

    /// Tests [`GameData::wf`].
    pub fn is_wf(&self) -> (r: bool)
        ensures
            r == self.wf(),
    {
        self.action_index < 20
    }

    /// The cell in row `x`, column `y`.
    pub open spec fn tile(&self, x: int, y: int) -> TileData {
        self.data[x][y]
    }

    /// This board with the cell in row `x`, column `y` replaced by `t`.
    pub open spec fn with_tile(self, x: int, y: int, t: TileData) -> GameData {
        GameData { data: grid_with(self.data, x, y, t), ..self }
    }

    /// The counter that follows `c`: one more, or 0 after the largest value.
    pub open spec fn next_counter(c: u64) -> u64 {
        if c == u64::MAX { 0 } else { (c + 1) as u64 }
    }

    /// This board after `action` was written to its history.
    pub open spec fn logged(self, action: GameAction) -> GameData {
        let slot = (self.action_index + 1) % 20;
        GameData {
            id_counter: Self::next_counter(self.id_counter),
            action_index: slot as u64,
            game_actions: vstd::array::spec_array_update(self.game_actions, slot, action),
            ..self
        }
    }

    /// The 20 records of the history, oldest first.
    pub open spec fn recent(&self) -> Seq<GameAction> {
        Seq::new(20, |k: int| self.game_actions[(self.action_index + 1 + k) % 20])
    }

    /// Whether this board and `other` agree on everything but their cells:
    /// on the history and its counters, the floor, the owner and the
    /// resources collected.
    pub open spec fn same_but_cells(&self, other: GameData) -> bool {
        &&& self.id_counter == other.id_counter
        &&& self.action_index == other.action_index
        &&& self.game_actions == other.game_actions
        &&& self.floor_id == other.floor_id
        &&& self.owner == other.owner
        &&& self.total_wood_collected == other.total_wood_collected
    }

    /// The cells in the order a scan visits them: row by row.
    pub open spec fn cells(&self) -> Seq<TileData> {
        Seq::new(100, |k: int| self.data[k / 10][k % 10])
    }

    /// Whether `who` has a living player tile on the board.
    pub open spec fn has_player(&self, who: Identity) -> bool {
        exists|k: int| 0 <= k < 100 && (#[trigger] self.cells()[k]).is_player_of(who)
    }

    /// The place in scan order of the first living tile of `who` at or
    /// after `from`, or 100 if there is none.
    pub open spec fn first_player_from(&self, who: Identity, from: int) -> int
        decreases 100 - from,
    {
        if from >= 100 {
            100
        } else if from >= 0 && self.cells()[from].is_player_of(who) {
            from
        } else {
            self.first_player_from(who, from + 1)
        }
    }

    /// The place in scan order of the last living tile of `who` among the
    /// first `upto` cells, or -1 if there is none.
    pub open spec fn last_player_upto(&self, who: Identity, upto: int) -> int
        decreases upto,
    {
        if upto <= 0 {
            -1
        } else if upto <= 100 && self.cells()[upto - 1].is_player_of(who) {
            upto - 1
        } else {
            self.last_player_upto(who, upto - 1)
        }
    }

    /// Whether no player has more than one living tile on the board.
    pub open spec fn one_tile_each(&self) -> bool {
        forall|i: int, j: int, k: int, l: int|
            0 <= i < 10 && 0 <= j < 10 && 0 <= k < 10 && 0 <= l < 10 && (#[trigger] self.tile(i, j)).tile_type
                == TileKind::Player && (#[trigger] self.tile(k, l)).tile_type == TileKind::Player && self.tile(
                i,
                j,
            ).tile_owner == self.tile(k, l).tile_owner ==> i == k && j == l
    }

    /// Whether every cell of this board holds what `f` gives for its row
    /// and column.
    pub open spec fn cells_are(&self, f: spec_fn(int, int) -> TileData) -> bool {
        forall|i: int, j: int| 0 <= i < 10 && 0 <= j < 10 ==> #[trigger] self.tile(i, j) == f(i, j)
    }

    /// What a move does to each cell: the target holds the unit, the cell
    /// it left is cleared, and no other cell changes.
    pub proof fn lemma_moved(self, px: int, py: int, nx: int, ny: int)
        requires
            0 <= px < 10,
            0 <= py < 10,
            0 <= nx < 10,
            0 <= ny < 10,
        ensures
            self.moved(px, py, nx, ny).same_but_cells(self),
            self.moved(px, py, nx, ny).cells_are(
                |i: int, j: int|
                    if i == px && j == py {
                        self.tile(px, py).vacated()
                    } else if i == nx && j == ny {
                        self.tile(px, py).arrived()
                    } else {
                        self.tile(i, j)
                    },
            ),
    {
        let unit = self.tile(px, py);
        let first = self.with_tile(nx, ny, unit.arrived());
        assert forall|i: int, j: int| 0 <= i < 10 && 0 <= j < 10 implies #[trigger] self.moved(px, py, nx, ny).tile(i, j)
            == (if i == px && j == py {
            unit.vacated()
        } else if i == nx && j == ny {
            unit.arrived()
        } else {
            self.tile(i, j)
        }) by {
            lemma_grid_with(self.data, nx, ny, unit.arrived(), i, j);
            lemma_grid_with(first.data, px, py, unit.vacated(), i, j);
        }
    }

    /// What replacing a cell does to each cell.
    pub proof fn lemma_with_tile(self, x: int, y: int, t: TileData)
        requires
            0 <= x < 10,
            0 <= y < 10,
        ensures
            self.with_tile(x, y, t).same_but_cells(self),
            self.with_tile(x, y, t).cells_are(|i: int, j: int| if i == x && j == y { t } else { self.tile(i, j) }),
    {
        assert forall|i: int, j: int| 0 <= i < 10 && 0 <= j < 10 implies #[trigger] self.with_tile(x, y, t).tile(i, j) == (if i
            == x && j == y {
            t
        } else {
            self.tile(i, j)
        }) by {
            lemma_grid_with(self.data, x, y, t, i, j);
        }
    }

    /// A player stands where a scan finds them.
    pub proof fn lemma_player_position(self, who: Identity)
        requires
            self.has_player(who),
        ensures
            0 <= self.last_player_upto(who, 100) < 100,
            self.tile(self.last_player_upto(who, 100) / 10, self.last_player_upto(who, 100) % 10).is_player_of(who),
    {
        self.lemma_has_player(who);
        self.lemma_last_player(who, 100);
        let at = self.last_player_upto(who, 100);
        assert(self.cells()[at] == self.tile(at / 10, at % 10));
    }

    /// A player who is not on the board owns no living tile.
    pub proof fn lemma_absent_player(self, who: Identity)
        requires
            !self.has_player(who),
        ensures
            forall|i: int, j: int| 0 <= i < 10 && 0 <= j < 10 ==> !(#[trigger] self.tile(i, j)).is_player_of(who),
    {
        assert forall|i: int, j: int| 0 <= i < 10 && 0 <= j < 10 implies !(#[trigger] self.tile(i, j)).is_player_of(who) by {
            assert(self.cells()[i * 10 + j] == self.tile(i, j));
        }
    }

    /// The tile a search for `who` finds: their first living tile in scan
    /// order, or the zeroed tile if they have none.
    pub open spec fn found(&self, who: Identity) -> TileData {
        if self.has_player(who) {
            self.cells()[self.first_player_from(who, 0)]
        } else {
            TileData::zeroed()
        }
    }

    /// What `first_player_from` finds is the first living tile of `who`.
    pub proof fn lemma_first_player(&self, who: Identity, from: int)
        requires
            0 <= from <= 100,
        ensures
            from <= self.first_player_from(who, from) <= 100,
            self.first_player_from(who, from) < 100 ==> self.cells()[self.first_player_from(who, from)].is_player_of(who),
            forall|k: int| from <= k < self.first_player_from(who, from) ==> !(#[trigger] self.cells()[k]).is_player_of(who),
        decreases 100 - from,
    {
        if from < 100 && !self.cells()[from].is_player_of(who) {
            self.lemma_first_player(who, from + 1);
        }
    }

    /// What `last_player_upto` finds is the last living tile of `who`.
    pub proof fn lemma_last_player(&self, who: Identity, upto: int)
        requires
            0 <= upto <= 100,
        ensures
            -1 <= self.last_player_upto(who, upto) < upto,
            self.last_player_upto(who, upto) >= 0 ==> self.cells()[self.last_player_upto(who, upto)].is_player_of(who),
            forall|k: int| self.last_player_upto(who, upto) < k < upto ==> !(#[trigger] self.cells()[k]).is_player_of(who),
        decreases upto,
    {
        if upto > 0 && !self.cells()[upto - 1].is_player_of(who) {
            self.lemma_last_player(who, upto - 1);
        }
    }

    /// A player is on the board exactly when a scan finds a tile of theirs.
    pub proof fn lemma_has_player(&self, who: Identity)
        ensures
            self.has_player(who) <==> self.first_player_from(who, 0) < 100,
            self.has_player(who) <==> self.last_player_upto(who, 100) >= 0,
    {
        self.lemma_first_player(who, 0);
        self.lemma_last_player(who, 100);
    }

    /// Whether this board is `before` after a reset: the kind of every
    /// cell set to empty, with its owner and stats left in place (unlike a
    /// cell that a unit has left); the history blank; its write
    /// position and the action counter back at 0; the rest untouched.
    pub open spec fn is_reset_of(&self, before: GameData) -> bool {
        &&& forall|i: int, j: int| 0 <= i < 10 && 0 <= j < 10 ==> #[trigger] self.tile(i, j) == before.tile(i, j).emptied()
        &&& forall|k: int| 0 <= k < 20 ==> #[trigger] self.game_actions[k] == GameAction::blank()
        &&& self.action_index == 0
        &&& self.id_counter == 0
        &&& self.floor_id == before.floor_id
        &&& self.owner == before.owner
        &&& self.total_wood_collected == before.total_wood_collected
    }

    /// Whether this board is `before` without `who`: each living tile of
    /// theirs emptied and given to nobody, its stats left in place; every
    /// other cell and the history untouched.
    pub open spec fn is_removal_of(&self, before: GameData, who: Identity) -> bool {
        &&& forall|i: int, j: int|
            0 <= i < 10 && 0 <= j < 10 ==> #[trigger] self.tile(i, j) == (if before.tile(i, j).is_player_of(who) {
                before.tile(i, j).vacated()
            } else {
                before.tile(i, j)
            })
        &&& self.id_counter == before.id_counter
        &&& self.action_index == before.action_index
        &&& self.game_actions == before.game_actions
        &&& self.floor_id == before.floor_id
        &&& self.owner == before.owner
        &&& self.total_wood_collected == before.total_wood_collected
    }

    /// On a board that was just reset, a search finds nobody: whoever is
    /// looked for, the zeroed tile comes back.
    pub proof fn lemma_nobody_found_after_reset(self, before: GameData, who: Identity)
        requires
            self.is_reset_of(before),
        ensures
            !self.has_player(who),
            self.found(who) == TileData::zeroed(),
    {
        assert forall|c: int| 0 <= c < 100 implies !(#[trigger] self.cells()[c]).is_player_of(who) by {
            assert(self.cells()[c] == self.tile(c / 10, c % 10));
        }
    }

    /// On a board from which a player was removed, a search for them
    /// finds the zeroed tile.
    pub proof fn lemma_nobody_found_after_removal(self, before: GameData, who: Identity)
        requires
            self.is_removal_of(before, who),
        ensures
            !self.has_player(who),
            self.found(who) == TileData::zeroed(),
    {
        assert forall|c: int| 0 <= c < 100 implies !(#[trigger] self.cells()[c]).is_player_of(who) by {
            assert(self.cells()[c] == self.tile(c / 10, c % 10));
        }
    }

    /// A board is determined by what it is a reset of.
    pub proof fn lemma_reset_is_unique(a: GameData, b: GameData, before: GameData)
        requires
            a.is_reset_of(before),
            b.is_reset_of(before),
        ensures
            a == b,
    {
        broadcast use vstd::array::group_array_axioms;
        assert forall|i: int| 0 <= i < 10 implies a.data[i] == b.data[i] by {
            assert forall|j: int| 0 <= j < 10 implies a.data[i][j] == b.data[i][j] by {
                assert(a.tile(i, j) == b.tile(i, j));
            }
            assert(a.data[i] =~= b.data[i]);
        }
        assert(a.data =~= b.data);
        assert forall|k: int| 0 <= k < 20 implies a.game_actions[k] == b.game_actions[k] by {
            assert(a.game_actions[k] == GameAction::blank());
            assert(b.game_actions[k] == GameAction::blank());
        }
        assert(a.game_actions =~= b.game_actions);
    }

    /// Resetting a board that was just reset changes nothing.
    pub proof fn lemma_reset_is_idempotent(once: GameData, twice: GameData, before: GameData)
        requires
            once.is_reset_of(before),
            twice.is_reset_of(once),
        ensures
            twice == once,
    {
        assert(twice.is_reset_of(before)) by {
            assert forall|i: int, j: int| 0 <= i < 10 && 0 <= j < 10 implies #[trigger] twice.tile(i, j) == before.tile(
                i,
                j,
            ).emptied() by {
                assert(once.tile(i, j) == before.tile(i, j).emptied());
            }
        }
        Self::lemma_reset_is_unique(twice, once, before);
    }

    /// Empties every cell and blanks the history. The stats of the emptied
    /// cells stay behind; nothing reads them while the cell is empty.
    pub fn reset_game(&mut self) -> (r: Result<(), GameErrorCode>)
        ensures
            r is Ok,
            final(self).is_reset_of(*old(self)),
            final(self).wf(),
            forall|who: Identity| !#[trigger] final(self).has_player(who),
    {
        let mut k: usize = 0;
        while k < 100
            invariant
                k <= 100,
                forall|i: int, j: int| 0 <= i < 10 && 0 <= j < 10 ==> self.data[i][j] == (if i * 10 + j < k { old(self).data[i][j].emptied() } else { old(self).data[i][j] }),
                self.floor_id == old(self).floor_id,
                self.owner == old(self).owner,
                self.total_wood_collected == old(self).total_wood_collected,
            decreases 100 - k,
        {
            let i: usize = k / 10;
            let j: usize = k % 10;
            self.data[i][j].tile_type = TileKind::Empty;
            k = k + 1;
        }
        self.game_actions = [GameAction::default(); 20];
        self.action_index = 0;
        self.id_counter = 0;
        proof {
            assert forall|c: int| 0 <= c < 100 implies (#[trigger] self.cells()[c]).is_empty() by {
                assert(self.cells()[c] == self.data[c / 10][c % 10]);
            }
        }
        Ok(())
    }

    /// Takes `player` off the board: each living tile of theirs becomes
    /// empty and owned by nobody. Every other cell stays as it is.
    pub fn remove_player(&mut self, player: Identity) -> (r: Result<(), GameErrorCode>)
        ensures
            r is Ok,
            final(self).is_removal_of(*old(self), player),
            !final(self).has_player(player),
            old(self).wf() ==> final(self).wf(),
    {
        let mut k: usize = 0;
        while k < 100
            invariant
                k <= 100,
                forall|i: int, j: int| 0 <= i < 10 && 0 <= j < 10 ==> self.data[i][j] == (
                    if i * 10 + j < k && old(self).data[i][j].is_player_of(player) {
                        old(self).data[i][j].vacated()
                    } else {
                        old(self).data[i][j]
                    }),
                self.id_counter == old(self).id_counter,
                self.action_index == old(self).action_index,
                self.game_actions == old(self).game_actions,
                self.floor_id == old(self).floor_id,
                self.owner == old(self).owner,
                self.total_wood_collected == old(self).total_wood_collected,
            decreases 100 - k,
        {
            let i: usize = k / 10;
            let j: usize = k % 10;
            if self.data[i][j].belongs_to(&player) {
                self.data[i][j].tile_type = TileKind::Empty;
                self.data[i][j].tile_owner = Identity::default();
            }
            k = k + 1;
        }
        proof {
            assert forall|c: int| 0 <= c < 100 implies !(#[trigger] self.cells()[c]).is_player_of(player) by {
                assert(self.cells()[c] == self.tile(c / 10, c % 10));
            }
        }
        Ok(())
    }

    /// The first living tile of `player` in scan order, or the zeroed tile
    /// if they have none.
    pub fn find_player(&self, player: Identity) -> (r: TileData)
        ensures
            r == self.found(player),
            self.has_player(player) <==> r.is_player_of(player),
    {
        let mut k: usize = 0;
        while k < 100
            invariant
                k <= 100,
                self.first_player_from(player, 0) == self.first_player_from(player, k as int),
            decreases 100 - k,
        {
            let i: usize = k / 10;
            let j: usize = k % 10;
            if self.data[i][j].belongs_to(&player) {
                proof {
                    self.lemma_has_player(player);
                }
                return self.data[i][j];
            }
            k = k + 1;
        }
        proof {
            self.lemma_has_player(player);
        }
        TileData::default()
    }

    /// This board after the unit in row `px`, column `py` stepped to row
    /// `nx`, column `ny`: the target holds the unit, as a player tile, and
    /// the cell it left is cleared, empty and owned by nobody.
    pub open spec fn moved(self, px: int, py: int, nx: int, ny: int) -> GameData {
        let unit = self.tile(px, py);
        self.with_tile(nx, ny, unit.arrived()).with_tile(px, py, unit.vacated())
    }

    /// Replaces the cell in row `x`, column `y` by `t`.
    pub fn set_tile(&mut self, x: usize, y: usize, t: TileData)
        requires
            x < 10,
            y < 10,
        ensures
            *final(self) == old(self).with_tile(x as int, y as int, t),
            final(self).tile(x as int, y as int) == t,
            forall|i: int, j: int|
                0 <= i < 10 && 0 <= j < 10 && !(i == x && j == y) ==> #[trigger] final(self).tile(i, j) == old(self).tile(
                    i,
                    j,
                ),
            final(self).same_but_cells(*old(self)),
    {
        self.data[x][y] = t;
        proof {
            broadcast use vstd::array::group_array_axioms;
            assert(final(self).data =~~= grid_with(old(self).data, x as int, y as int, t));
        }
    }

    /// This board after each of `actions` was written to its history, in order.
    pub open spec fn logged_all(self, actions: Seq<GameAction>) -> GameData
        decreases actions.len(),
    {
        if actions.len() == 0 {
            self
        } else {
            self.logged_all(actions.drop_last()).logged(actions.last())
        }
    }

    /// Writing a record pushes the oldest one out of the history and
    /// touches nothing but the history and its counters.
    pub proof fn lemma_logged(self, action: GameAction)
        ensures
            self.logged(action).wf(),
            self.logged(action).recent() == self.recent().drop_first().push(action),
            self.logged(action).data == self.data,
            self.logged(action).floor_id == self.floor_id,
            self.logged(action).owner == self.owner,
            self.logged(action).total_wood_collected == self.total_wood_collected,
    {
        broadcast use vstd::array::group_array_axioms;
        assert(self.logged(action).recent() =~= self.recent().drop_first().push(action));
    }

    /// Writing records touches nothing but the history, moves its write
    /// position once round the ring for every 20 of them, and counts each,
    /// starting again at 0 after the largest value.
    pub proof fn lemma_logged_all_counts(self, actions: Seq<GameAction>)
        requires
            self.wf(),
        ensures
            self.logged_all(actions).wf(),
            self.logged_all(actions).id_counter == (self.id_counter + actions.len()) % 0x1_0000_0000_0000_0000,
            self.logged_all(actions).action_index == (self.action_index + actions.len()) % 20,
            self.logged_all(actions).data == self.data,
            self.logged_all(actions).floor_id == self.floor_id,
            self.logged_all(actions).owner == self.owner,
            self.logged_all(actions).total_wood_collected == self.total_wood_collected,
        decreases actions.len(),
    {
        if actions.len() > 0 {
            self.lemma_logged_all_counts(actions.drop_last());
        }
    }

    /// The history is a window on everything that was ever written: after
    /// any number of records, it holds the last 20 of what it held before
    /// followed by those records, oldest first.
    pub proof fn lemma_history_is_last_twenty(self, actions: Seq<GameAction>)
        requires
            self.wf(),
        ensures
            self.logged_all(actions).recent() == (self.recent() + actions).subrange(
                actions.len() as int,
                (actions.len() + 20) as int,
            ),
        decreases actions.len(),
    {
        let all = self.recent() + actions;
        let window = all.subrange(actions.len() as int, (actions.len() + 20) as int);
        if actions.len() == 0 {
            assert(window =~= self.recent());
        } else {
            let front = actions.drop_last();
            let before = self.logged_all(front);
            let all_front = self.recent() + front;
            let window_front = all_front.subrange(front.len() as int, (front.len() + 20) as int);
            self.lemma_history_is_last_twenty(front);
            self.lemma_logged_all_counts(front);
            before.lemma_logged(actions.last());
            assert(before.recent() == window_front);
            assert(window.len() == 20);
            assert forall|k: int| 0 <= k < 20 implies window[k] == window_front.drop_first().push(actions.last())[k] by {
                if k < 19 {
                    assert(window[k] == all[actions.len() + k]);
                    assert(window_front.drop_first()[k] == window_front[k + 1]);
                    assert(window_front[k + 1] == all_front[front.len() + k + 1]);
                    assert(all_front[front.len() + k + 1] == all[actions.len() + k]);
                } else {
                    assert(window[k] == actions.last());
                }
            }
            assert(window =~= window_front.drop_first().push(actions.last()));
        }
    }

    /// Once 20 records or more were written, the history holds exactly the
    /// last 20 of them, oldest first, whatever it held before.
    pub proof fn lemma_history_forgets(self, actions: Seq<GameAction>)
        requires
            self.wf(),
            actions.len() >= 20,
        ensures
            self.logged_all(actions).recent() == actions.subrange(actions.len() - 20, actions.len() as int),
    {
        self.lemma_history_is_last_twenty(actions);
        assert((self.recent() + actions).subrange(actions.len() as int, (actions.len() + 20) as int) =~= actions.subrange(
            actions.len() - 20,
            actions.len() as int,
        ));
    }

    /// The records of the history, oldest first.
    pub fn history(&self) -> (r: Vec<GameAction>)
        ensures
            r@ == self.recent(),
    {
        let mut out: Vec<GameAction> = Vec::new();
        let mut k: u64 = 0;
        while k < 20
            invariant
                k <= 20,
                out@.len() == k,
                forall|c: int| 0 <= c < k ==> out@[c] == self.recent()[c],
            decreases 20 - k,
        {
            let slot: usize = ((self.action_index % 20 + 1 + k) % 20) as usize;
            out.push(self.game_actions[slot]);
            k = k + 1;
        }
        assert(out@ =~= self.recent());
        out
    }

    /// Writes `game_action` over the oldest record of the history and counts it.
    pub fn add_new_game_action(&mut self, game_action: GameAction)
        requires
            old(self).log_fits(),
        ensures
            *final(self) == old(self).logged(game_action),
            final(self).wf(),
            final(self).recent() == old(self).recent().drop_first().push(game_action),
    {
        let option_add = self.id_counter.checked_add(1);
        match option_add {
            Some(val) => {
                self.id_counter = val;
            },
            None => {
                self.id_counter = 0;
            },
        }
        self.action_index = (self.action_index + 1) % 20;
        self.game_actions[self.action_index as usize] = game_action;
        proof {
            broadcast use vstd::array::group_array_axioms;
            assert(final(self).game_actions =~= old(self).logged(game_action).game_actions);
            old(self).lemma_logged(game_action);
        }
    }
}

impl Default for GameData {
    /// The board of floor 0 that belongs to nobody: every cell the zeroed
    /// tile, the history blank.
    fn default() -> (r: GameData)
        ensures
            r.wf(),
            r.id_counter == 0,
            r.action_index == 0,
            r.total_wood_collected == 0,
            r.floor_id == 0,
            r.owner == Identity::null(),
            forall|i: int, j: int| 0 <= i < 10 && 0 <= j < 10 ==> #[trigger] r.tile(i, j) == TileData::zeroed(),
            forall|k: int| 0 <= k < 20 ==> #[trigger] r.game_actions[k] == GameAction::blank(),
    {
        let row: [TileData; 10] = [TileData::default(); 10];
        let r = GameData {
            id_counter: 0,
            action_index: 0,
            data: [row; 10],
            total_wood_collected: 0,
            game_actions: [GameAction::default(); 20],
            floor_id: 0,
            owner: Identity::default(),
        };
        proof {
            broadcast use vstd::array::group_array_axioms;
            assert forall|i: int, j: int| 0 <= i < 10 && 0 <= j < 10 implies #[trigger] r.tile(i, j) == TileData::zeroed() by {
                assert(row == vstd::array::spec_array_fill_for_copy_type::<TileData, 10>(TileData::zeroed()));
                assert(r.data == vstd::array::spec_array_fill_for_copy_type::<[TileData; 10], 10>(row));
                assert(r.data@[i] == row);
                assert(row@[j] == TileData::zeroed());
            }
        }
        r
    }
}

} // verus!
