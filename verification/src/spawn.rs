//! Filling empty cells with players, monsters, stairs and chests.
//!
//! Where something spawns is decided by the pseudo-random stream: each
//! placement draws one number, takes the empty cell at that number modulo
//! the count of cells still free, and strikes the cell from the pool, so
//! that nothing spawned in one batch lands on another.

use vstd::prelude::*;
use crate::errors::GameErrorCode;
use crate::game_data::{lemma_grid_with, GameData};
use crate::identity::Identity;
use crate::rng::{xorshift, XorShift64};
use crate::tile::{TileData, TileKind};

verus! {

/// What a scan of the board finds.
pub struct Census {
    /// Where the last living tile of the player stands, if they have one.
    pub player: Option<(usize, usize)>,
    /// The empty cells, in scan order.
    pub empty_slots: Vec<(usize, usize)>,
    /// Whether the board has stairs.
    pub has_stairs: bool,
    /// How many monsters the board holds.
    pub num_enemies: u32,
}

/// A spawn batch in progress: the board, the cells still free, and the
/// state of the stream.
pub struct SpawnState {
    pub board: GameData,
    pub pool: Seq<(usize, usize)>,
    pub rng: u64,
}

/// Whether every cell of the pool lies on the board.
pub open spec fn on_board(pool: Seq<(usize, usize)>) -> bool {
    forall|k: int| 0 <= k < pool.len() ==> (#[trigger] pool[k]).0 < 10 && pool[k].1 < 10
}

/// The place of a cell in scan order.
pub open spec fn place_of(cell: (usize, usize)) -> int {
    cell.0 * 10 + cell.1
}

/// Whether no cell occurs twice in the pool.
pub open spec fn distinct(pool: Seq<(usize, usize)>) -> bool {
    forall|a: int, b: int| 0 <= a < b < pool.len() ==> #[trigger] pool[a] != #[trigger] pool[b]
}

/// Whether the cell is not in the pool.
pub open spec fn outside(pool: Seq<(usize, usize)>, cell: (usize, usize)) -> bool {
    forall|k: int| 0 <= k < pool.len() ==> #[trigger] pool[k] != cell
}

/// Whether the batch has kept to the cells that were empty on `origin`:
/// its pool holds only such cells, each once, and every cell that was
/// occupied on `origin` is as it was, as is everything but the cells.
pub open spec fn keeps_to_free_cells(st: SpawnState, origin: GameData) -> bool {
    &&& st.pool.len() <= 100
    &&& on_board(st.pool)
    &&& distinct(st.pool)
    &&& forall|k: int| 0 <= k < st.pool.len() ==> origin.tile((#[trigger] st.pool[k]).0 as int, st.pool[k].1 as int).is_empty()
    &&& forall|i: int, j: int|
        0 <= i < 10 && 0 <= j < 10 && !origin.tile(i, j).is_empty() ==> #[trigger] st.board.tile(i, j) == origin.tile(i, j)
    &&& st.board.same_but_cells(origin)
}

/// The place in the pool that the next draw picks.
pub open spec fn pick(st: SpawnState) -> int {
    (xorshift(st.rng) % (st.pool.len() as u64)) as int
}

/// The batch after `t` was placed on the cell that the next draw picks.
pub open spec fn placed(st: SpawnState, t: TileData) -> SpawnState {
    let slot = st.pool[pick(st)];
    SpawnState {
        board: st.board.with_tile(slot.0 as int, slot.1 as int, t),
        pool: st.pool.remove(pick(st)),
        rng: xorshift(st.rng),
    }
}

/// The batch after `t` was placed if a cell is free, and unchanged (no
/// number drawn) if none is.
pub open spec fn placed_if_room(st: SpawnState, t: TileData) -> SpawnState {
    if st.pool.len() > 0 { placed(st, t) } else { st }
}

/// The batch after one number was drawn and nothing placed.
pub open spec fn drawn(st: SpawnState) -> SpawnState {
    SpawnState { rng: xorshift(st.rng), ..st }
}

/// The batch after `t` was placed `n` times, each time if a cell is free.
pub open spec fn placed_times(st: SpawnState, t: TileData, n: nat) -> SpawnState
    decreases n,
{
    if n == 0 {
        st
    } else {
        placed_times(placed_if_room(st, t), t, (n - 1) as nat)
    }
}

/// A monster, or the stairs, of a floor: health `floor + 5`, every other
/// stat `floor + 1`.
pub open spec fn floor_tile(kind: TileKind, owner: Identity, floor: u32) -> TileData {
    TileData {
        tile_type: kind,
        tile_level: (floor + 1) as u32,
        tile_owner: owner,
        tile_xp: (floor + 1) as u32,
        tile_damage: (floor + 1) as u32,
        tile_defence: (floor + 1) as u32,
        tile_armor: (floor + 1) as u32,
        tile_max_armor: (floor + 1) as u32,
        tile_health: (floor + 5) as u32,
        tile_max_health: (floor + 5) as u32,
    }
}

/// A chest: no stats but its level.
pub open spec fn chest_tile(kind: TileKind, owner: Identity, level: u32) -> TileData {
    TileData {
        tile_type: kind,
        tile_level: level,
        tile_owner: owner,
        tile_xp: 0,
        tile_damage: 0,
        tile_defence: 0,
        tile_armor: 0,
        tile_max_armor: 0,
        tile_health: 0,
        tile_max_health: 0,
    }
}

/// A placement puts the tile on the cell it picks, strikes that cell from
/// the pool, and touches no other cell: a batch that kept to the free cells
/// still does.
pub proof fn lemma_placed(st: SpawnState, origin: GameData, t: TileData)
    requires
        st.pool.len() > 0,
        keeps_to_free_cells(st, origin),
    ensures
        keeps_to_free_cells(placed(st, t), origin),
        placed(st, t).pool.len() == st.pool.len() - 1,
        placed(st, t).board.tile(st.pool[pick(st)].0 as int, st.pool[pick(st)].1 as int) == t,
        st.pool[pick(st)].0 < 10 && st.pool[pick(st)].1 < 10,
        outside(placed(st, t).pool, st.pool[pick(st)]),
{
    let at = pick(st);
    let slot = st.pool[at];
    let next = placed(st, t);
    assert(0 <= at < st.pool.len());
    assert(slot.0 < 10 && slot.1 < 10);
    assert forall|k: int| 0 <= k < next.pool.len() implies #[trigger] next.pool[k] == st.pool[if k < at { k } else { k + 1 }] by {}
    assert forall|i: int, j: int| 0 <= i < 10 && 0 <= j < 10 implies #[trigger] next.board.tile(i, j) == (if i == slot.0
        && j == slot.1 {
        t
    } else {
        st.board.tile(i, j)
    }) by {
        lemma_grid_with(st.board.data, slot.0 as int, slot.1 as int, t, i, j);
    }
    assert(distinct(next.pool)) by {
        assert forall|a: int, b: int| 0 <= a < b < next.pool.len() implies #[trigger] next.pool[a] != #[trigger] next.pool[b] by {
            let a0 = if a < at { a } else { a + 1 };
            let b0 = if b < at { b } else { b + 1 };
            assert(st.pool[a0] != st.pool[b0]);
        }
    }
    assert(outside(next.pool, slot)) by {
        assert forall|k: int| 0 <= k < next.pool.len() implies #[trigger] next.pool[k] != slot by {
            let k0 = if k < at { k } else { k + 1 };
            if k0 < at {
                assert(st.pool[k0] != st.pool[at]);
            } else {
                assert(st.pool[at] != st.pool[k0]);
            }
        }
    }
    assert forall|i: int, j: int| 0 <= i < 10 && 0 <= j < 10 && !origin.tile(i, j).is_empty() implies #[trigger] next.board.tile(
        i,
        j,
    ) == origin.tile(i, j) by {
        assert(origin.tile(slot.0 as int, slot.1 as int).is_empty());
    }
    assert forall|k: int| 0 <= k < next.pool.len() implies origin.tile(
        (#[trigger] next.pool[k]).0 as int,
        next.pool[k].1 as int,
    ).is_empty() by {
        let k0 = if k < at { k } else { k + 1 };
        assert(origin.tile(st.pool[k0].0 as int, st.pool[k0].1 as int).is_empty());
    }
    assert(on_board(next.pool)) by {
        assert forall|k: int| 0 <= k < next.pool.len() implies (#[trigger] next.pool[k]).0 < 10 && next.pool[k].1 < 10 by {
            let k0 = if k < at { k } else { k + 1 };
            assert(st.pool[k0].0 < 10 && st.pool[k0].1 < 10);
        }
    }
}

/// A cell that has left the pool is never written to again: a placement
/// leaves it out of the pool and leaves its tile alone.
pub proof fn lemma_placed_spares(st: SpawnState, t: TileData, kept: (usize, usize))
    requires
        0 < st.pool.len() <= 100,
        on_board(st.pool),
        outside(st.pool, kept),
        kept.0 < 10 && kept.1 < 10,
    ensures
        outside(placed(st, t).pool, kept),
        placed(st, t).board.tile(kept.0 as int, kept.1 as int) == st.board.tile(kept.0 as int, kept.1 as int),
{
    let at = pick(st);
    let slot = st.pool[at];
    let next = placed(st, t);
    assert(0 <= at < st.pool.len());
    assert(slot.0 < 10 && slot.1 < 10);
    assert(slot != kept);
    lemma_grid_with(st.board.data, slot.0 as int, slot.1 as int, t, kept.0 as int, kept.1 as int);
    assert forall|k: int| 0 <= k < next.pool.len() implies #[trigger] next.pool[k] != kept by {
        let k0 = if k < at { k } else { k + 1 };
        assert(next.pool[k] == st.pool[k0]);
        assert(st.pool[k0] != kept);
    }
}

/// What [`lemma_placed`] and [`lemma_placed_spares`] say of a placement
/// holds of one that is made only if a cell is free.
pub proof fn lemma_placed_if_room(st: SpawnState, origin: GameData, t: TileData, kept: (usize, usize))
    requires
        keeps_to_free_cells(st, origin),
        outside(st.pool, kept),
        kept.0 < 10 && kept.1 < 10,
    ensures
        keeps_to_free_cells(placed_if_room(st, t), origin),
        placed_if_room(st, t).pool.len() <= st.pool.len(),
        outside(placed_if_room(st, t).pool, kept),
        placed_if_room(st, t).board.tile(kept.0 as int, kept.1 as int) == st.board.tile(kept.0 as int, kept.1 as int),
{
    if st.pool.len() > 0 {
        lemma_placed(st, origin, t);
        lemma_placed_spares(st, t, kept);
    }
}

/// Whether every player tile of `after` stood on `before` already, on
/// the same cell.
pub open spec fn adds_no_player(after: GameData, before: GameData) -> bool {
    forall|i: int, j: int|
        0 <= i < 10 && 0 <= j < 10 && (#[trigger] after.tile(i, j)).tile_type == TileKind::Player ==> after.tile(i, j)
            == before.tile(i, j)
}

/// Placing a tile that is no player tile adds no player tile.
pub proof fn lemma_placed_adds_no_player(st: SpawnState, t: TileData)
    requires
        0 < st.pool.len() <= 100,
        on_board(st.pool),
        t.tile_type != TileKind::Player,
    ensures
        adds_no_player(placed(st, t).board, st.board),
{
    let slot = st.pool[pick(st)];
    assert(0 <= pick(st) < st.pool.len());
    st.board.lemma_with_tile(slot.0 as int, slot.1 as int, t);
}

/// Placing a tile that is no player tile several times adds no player tile.
pub proof fn lemma_placed_times_adds_no_player(st: SpawnState, origin: GameData, t: TileData, n: nat)
    requires
        keeps_to_free_cells(st, origin),
        t.tile_type != TileKind::Player,
    ensures
        adds_no_player(placed_times(st, t, n).board, st.board),
    decreases n,
{
    if n > 0 {
        let next = placed_if_room(st, t);
        if st.pool.len() > 0 {
            lemma_placed(st, origin, t);
            lemma_placed_adds_no_player(st, t);
        }
        lemma_placed_times_adds_no_player(next, origin, t, (n - 1) as nat);
        let last = placed_times(st, t, n).board;
        assert forall|i: int, j: int|
            0 <= i < 10 && 0 <= j < 10 && (#[trigger] last.tile(i, j)).tile_type == TileKind::Player implies last.tile(i, j)
            == st.board.tile(i, j) by {
            assert(last.tile(i, j) == next.board.tile(i, j));
        }
    }
}

/// Populating a board adds no player tile.
pub proof fn lemma_populated_adds_no_player(
    st: SpawnState,
    origin: GameData,
    crowded: bool,
    has_stairs: bool,
    owner: Identity,
    floor: u32,
    enemies: nat,
    threshold: u64,
    premium: bool,
)
    requires
        keeps_to_free_cells(st, origin),
    ensures
        adds_no_player(populated(st, crowded, has_stairs, owner, floor, enemies, threshold, premium).board, st.board),
{
    let monster = floor_tile(TileKind::Enemy, owner, floor);
    let stairs = floor_tile(TileKind::Stairs, owner, floor);
    let gold = chest_tile(TileKind::ChestGold, owner, (floor + 1) as u32);
    let blue = chest_tile(TileKind::ChestBlue, owner, 1);
    let s1 = if crowded { st } else { placed_times(st, monster, enemies) };
    let s2 = if s1.pool.len() > 0 && !has_stairs { placed(s1, stairs) } else { s1 };
    let s3 = placed_if_room(s2, gold);
    let s4 = drawn(s3);
    let s5 = populated(st, crowded, has_stairs, owner, floor, enemies, threshold, premium);
    lemma_placed_times_adds_no_player(st, origin, monster, enemies);
    if !crowded {
        lemma_placed_times_keeps(st, origin, monster, enemies);
    }
    if s1.pool.len() > 0 && !has_stairs {
        lemma_placed(s1, origin, stairs);
        lemma_placed_adds_no_player(s1, stairs);
    }
    if s2.pool.len() > 0 {
        lemma_placed(s2, origin, gold);
        lemma_placed_adds_no_player(s2, gold);
    }
    if s4.pool.len() > 0 {
        lemma_placed_adds_no_player(s4, blue);
    }
    assert forall|i: int, j: int|
        0 <= i < 10 && 0 <= j < 10 && (#[trigger] s5.board.tile(i, j)).tile_type == TileKind::Player implies s5.board.tile(i, j)
        == st.board.tile(i, j) by {
        assert(s5.board.tile(i, j) == s4.board.tile(i, j));
        assert(s3.board.tile(i, j) == s2.board.tile(i, j));
        assert(s2.board.tile(i, j) == s1.board.tile(i, j));
        assert(s1.board.tile(i, j) == st.board.tile(i, j));
    }
}

/// A batch that kept to the free cells still does after several placements.
pub proof fn lemma_placed_times_keeps(st: SpawnState, origin: GameData, t: TileData, n: nat)
    requires
        keeps_to_free_cells(st, origin),
    ensures
        keeps_to_free_cells(placed_times(st, t, n), origin),
    decreases n,
{
    if n > 0 {
        if st.pool.len() > 0 {
            lemma_placed(st, origin, t);
        }
        lemma_placed_times_keeps(placed_if_room(st, t), origin, t, (n - 1) as nat);
    }
}

/// The batch after the board was populated around a player who has just
/// been placed.
///
/// Unless the board is `crowded` (it held six monsters or more), up to
/// `enemies` monsters of the floor are placed. The stairs follow unless the
/// board had some, and a basic chest of level `floor + 1`. Each of these is
/// placed only while a cell is free. Then one number is drawn, and if it
/// exceeds `threshold` modulo 100, `premium` is set and a cell is free, a
/// premium chest of level 1 is placed.
pub open spec fn populated(
    st: SpawnState,
    crowded: bool,
    has_stairs: bool,
    owner: Identity,
    floor: u32,
    enemies: nat,
    threshold: u64,
    premium: bool,
) -> SpawnState {
    let s1 = if crowded { st } else { placed_times(st, floor_tile(TileKind::Enemy, owner, floor), enemies) };
    let s2 = if s1.pool.len() > 0 && !has_stairs {
        placed(s1, floor_tile(TileKind::Stairs, owner, floor))
    } else {
        s1
    };
    let s3 = placed_if_room(s2, chest_tile(TileKind::ChestGold, owner, (floor + 1) as u32));
    let s4 = drawn(s3);
    if s4.pool.len() > 0 && premium && s4.rng % 100 > threshold {
        placed(s4, chest_tile(TileKind::ChestBlue, owner, 1))
    } else {
        s4
    }
}

/// The number of monsters placed when up to `enemies` are asked for and
/// `free` cells are free.
pub open spec fn monsters_placed(free: nat, crowded: bool, enemies: nat) -> nat {
    if crowded {
        0
    } else if enemies <= free {
        enemies
    } else {
        free
    }
}

/// Whether the stats of what is placed stay in range when a board with
/// `free` free cells is populated: `floor + 5` if a monster or the stairs
/// are placed, `floor + 1` if the basic chest is.
pub open spec fn populate_fits(free: nat, crowded: bool, has_stairs: bool, floor: u32, enemies: nat) -> bool {
    let monsters = monsters_placed(free, crowded, enemies);
    let stairs = !has_stairs && free > monsters;
    let taken = monsters + (if stairs { 1nat } else { 0nat });
    &&& monsters > 0 || stairs ==> floor + 5 <= u32::MAX
    &&& free > taken ==> floor + 1 <= u32::MAX
}

/// Placing into an empty pool changes nothing, however often it is tried.
pub proof fn lemma_placed_times_without_room(st: SpawnState, t: TileData, n: nat)
    requires
        st.pool.len() == 0,
    ensures
        placed_times(st, t, n) == st,
    decreases n,
{
    if n > 0 {
        lemma_placed_times_without_room(st, t, (n - 1) as nat);
    }
}

/// Repeated placements take as many cells as were asked for, or all that
/// were free.
pub proof fn lemma_placed_times_len(st: SpawnState, t: TileData, n: nat)
    requires
        st.pool.len() <= 100,
    ensures
        placed_times(st, t, n).pool.len() == st.pool.len() - monsters_placed(st.pool.len(), false, n),
    decreases n,
{
    if n > 0 {
        if st.pool.len() > 0 {
            assert(0 <= pick(st) < st.pool.len());
        }
        lemma_placed_times_len(placed_if_room(st, t), t, (n - 1) as nat);
    }
}

/// What [`lemma_placed_if_room`] says of one placement holds of several.
pub proof fn lemma_placed_times(st: SpawnState, origin: GameData, t: TileData, n: nat, kept: (usize, usize))
    requires
        keeps_to_free_cells(st, origin),
        outside(st.pool, kept),
        kept.0 < 10 && kept.1 < 10,
    ensures
        keeps_to_free_cells(placed_times(st, t, n), origin),
        outside(placed_times(st, t, n).pool, kept),
        placed_times(st, t, n).board.tile(kept.0 as int, kept.1 as int) == st.board.tile(kept.0 as int, kept.1 as int),
    decreases n,
{
    if n > 0 {
        lemma_placed_if_room(st, origin, t, kept);
        lemma_placed_times(placed_if_room(st, t), origin, t, (n - 1) as nat, kept);
    }
}

/// Populating a board writes only to cells that were empty and leaves the
/// history alone, and it spares every cell that has left the pool: the
/// player's tile stays where it was put.
pub proof fn lemma_populated(
    st: SpawnState,
    origin: GameData,
    crowded: bool,
    has_stairs: bool,
    owner: Identity,
    floor: u32,
    enemies: nat,
    threshold: u64,
    premium: bool,
    kept: (usize, usize),
)
    requires
        keeps_to_free_cells(st, origin),
        outside(st.pool, kept),
        kept.0 < 10 && kept.1 < 10,
    ensures
        keeps_to_free_cells(populated(st, crowded, has_stairs, owner, floor, enemies, threshold, premium), origin),
        outside(populated(st, crowded, has_stairs, owner, floor, enemies, threshold, premium).pool, kept),
        populated(st, crowded, has_stairs, owner, floor, enemies, threshold, premium).board.tile(
            kept.0 as int,
            kept.1 as int,
        ) == st.board.tile(kept.0 as int, kept.1 as int),
{
    let monster = floor_tile(TileKind::Enemy, owner, floor);
    lemma_placed_times(st, origin, monster, enemies, kept);
    let s1 = if crowded { st } else { placed_times(st, monster, enemies) };
    let stairs = floor_tile(TileKind::Stairs, owner, floor);
    lemma_placed_if_room(s1, origin, stairs, kept);
    let s2 = if s1.pool.len() > 0 && !has_stairs { placed(s1, stairs) } else { s1 };
    let gold = chest_tile(TileKind::ChestGold, owner, (floor + 1) as u32);
    lemma_placed_if_room(s2, origin, gold, kept);
    let s3 = placed_if_room(s2, gold);
    let s4 = drawn(s3);
    lemma_placed_if_room(s4, origin, chest_tile(TileKind::ChestBlue, owner, 1), kept);
}

impl GameData {
    /// The empty cells among the first `n` in scan order.
    pub open spec fn empty_slots_upto(&self, n: int) -> Seq<(usize, usize)>
        decreases n,
    {
        if n <= 0 {
            Seq::empty()
        } else if self.cells()[n - 1].is_empty() {
            self.empty_slots_upto(n - 1).push((((n - 1) / 10) as usize, ((n - 1) % 10) as usize))
        } else {
            self.empty_slots_upto(n - 1)
        }
    }

    /// The empty cells of the board, in scan order.
    pub open spec fn empty_slots(&self) -> Seq<(usize, usize)> {
        self.empty_slots_upto(100)
    }

    /// The number of monsters among the first `n` cells in scan order.
    pub open spec fn enemies_upto(&self, n: int) -> nat
        decreases n,
    {
        if n <= 0 {
            0
        } else if self.cells()[n - 1].tile_type == TileKind::Enemy {
            self.enemies_upto(n - 1) + 1
        } else {
            self.enemies_upto(n - 1)
        }
    }

    /// The number of monsters on the board.
    pub open spec fn num_enemies(&self) -> nat {
        self.enemies_upto(100)
    }

    /// Whether some cell of the board holds stairs.
    pub open spec fn has_stairs(&self) -> bool {
        exists|k: int| 0 <= k < 100 && (#[trigger] self.cells()[k]).tile_type == TileKind::Stairs
    }

    /// The cell where the last living tile of `who` stands, if there is one.
    pub open spec fn player_position(&self, who: Identity) -> Option<(usize, usize)> {
        let k = self.last_player_upto(who, 100);
        if k < 0 { None } else { Some(((k / 10) as usize, (k % 10) as usize)) }
    }

    /// The empty cells found among the first `n` are on the board, are
    /// empty, are at most `n`, and are as many as the cells that are empty.
    pub proof fn lemma_empty_slots(&self, n: int)
        requires
            0 <= n <= 100,
        ensures
            on_board(self.empty_slots_upto(n)),
            self.empty_slots_upto(n).len() <= n,
            forall|k: int| 0 <= k < self.empty_slots_upto(n).len() ==> self.tile(
                (#[trigger] self.empty_slots_upto(n)[k]).0 as int,
                self.empty_slots_upto(n)[k].1 as int,
            ).is_empty(),
            self.empty_slots_upto(n).len() == 0 <==> (forall|c: int| 0 <= c < n ==> !(#[trigger] self.cells()[c]).is_empty()),
            forall|k: int| 0 <= k < self.empty_slots_upto(n).len() ==> place_of(#[trigger] self.empty_slots_upto(n)[k]) < n,
            forall|a: int, b: int|
                0 <= a < b < self.empty_slots_upto(n).len() ==> place_of(#[trigger] self.empty_slots_upto(n)[a])
                    < place_of(#[trigger] self.empty_slots_upto(n)[b]),
            distinct(self.empty_slots_upto(n)),
        decreases n,
    {
        if n > 0 {
            self.lemma_empty_slots(n - 1);
            let prev = self.empty_slots_upto(n - 1);
            if self.cells()[n - 1].is_empty() {
                let slot = (((n - 1) / 10) as usize, ((n - 1) % 10) as usize);
                assert(self.empty_slots_upto(n) == prev.push(slot));
                assert(self.tile(slot.0 as int, slot.1 as int) == self.cells()[n - 1]);
                assert(place_of(slot) == n - 1);
            } else {
                assert(self.empty_slots_upto(n) == prev);
            }
        }
    }

    /// The monsters counted among the first `n` cells are at most `n`.
    pub proof fn lemma_enemies_bound(&self, n: int)
        requires
            0 <= n,
        ensures
            self.enemies_upto(n) <= n,
        decreases n,
    {
        if n > 0 {
            self.lemma_enemies_bound(n - 1);
        }
    }

    /// Scans the board once, row by row, on behalf of `who`.
    pub fn census(&self, who: &Identity) -> (r: Census)
        ensures
            r.player == self.player_position(*who),
            r.player is Some <==> self.has_player(*who),
            match r.player {
                Some(at) => at.0 < 10 && at.1 < 10 && self.tile(at.0 as int, at.1 as int).is_player_of(*who),
                None => true,
            },
            r.empty_slots@ == self.empty_slots(),
            on_board(r.empty_slots@),
            r.empty_slots@.len() <= 100,
            r.has_stairs == self.has_stairs(),
            r.num_enemies == self.num_enemies(),
    {
        let mut player: Option<(usize, usize)> = None;
        let mut empty_slots: Vec<(usize, usize)> = Vec::new();
        let mut has_stairs: bool = false;
        let mut num_enemies: u32 = 0;
        let mut k: usize = 0;
        while k < 100
            invariant
                k <= 100,
                empty_slots@ == self.empty_slots_upto(k as int),
                num_enemies == self.enemies_upto(k as int),
                has_stairs == (exists|c: int| 0 <= c < k && (#[trigger] self.cells()[c]).tile_type == TileKind::Stairs),
                player == (if self.last_player_upto(*who, k as int) < 0 {
                    None
                } else {
                    Some(
                        (
                            (self.last_player_upto(*who, k as int) / 10) as usize,
                            (self.last_player_upto(*who, k as int) % 10) as usize,
                        ),
                    )
                }),
            decreases 100 - k,
        {
            let i: usize = k / 10;
            let j: usize = k % 10;
            let tile: TileData = self.data[i][j];
            proof {
                assert(self.cells()[k as int] == tile);
                self.lemma_enemies_bound(k as int);
            }
            match tile.tile_type {
                TileKind::Stairs => {
                    has_stairs = true;
                },
                TileKind::Enemy => {
                    num_enemies = num_enemies + 1;
                },
                TileKind::Empty => {
                    empty_slots.push((i, j));
                },
                _ => {},
            }
            if tile.belongs_to(who) {
                player = Some((i, j));
            }
            k = k + 1;
        }
        proof {
            self.lemma_empty_slots(100);
            self.lemma_has_player(*who);
            self.lemma_last_player(*who, 100);
            let last = self.last_player_upto(*who, 100);
            if last >= 0 {
                assert(self.cells()[last] == self.tile(last / 10, last % 10));
            }
        }
        Census { player, empty_slots, has_stairs, num_enemies }
    }
}

/// Draws a number and places `t` on the free cell it picks, which leaves
/// the pool. Returns that cell.
pub fn place(game: &mut GameData, pool: &mut Vec<(usize, usize)>, rng: &mut XorShift64, t: TileData) -> (slot: (usize, usize))
    requires
        old(pool)@.len() > 0,
        on_board(old(pool)@),
    ensures
        slot == old(pool)@[pick(SpawnState { board: *old(game), pool: old(pool)@, rng: old(rng).a })],
        slot.0 < 10 && slot.1 < 10,
        (SpawnState { board: *final(game), pool: final(pool)@, rng: final(rng).a }) == placed(
            SpawnState { board: *old(game), pool: old(pool)@, rng: old(rng).a },
            t,
        ),
        on_board(final(pool)@),
        final(pool)@.len() == old(pool)@.len() - 1,
{
    let len: u64 = pool.len() as u64;
    let random_index: usize = (rng.next() % len) as usize;
    let slot: (usize, usize) = pool[random_index];
    pool.remove(random_index);
    game.set_tile(slot.0, slot.1, t);
    slot
}

/// Builds a monster, or the stairs, of a floor.
pub fn make_floor_tile(kind: TileKind, owner: Identity, floor: u32) -> (r: TileData)
    requires
        floor + 5 <= u32::MAX,
    ensures
        r == floor_tile(kind, owner, floor),
{
    TileData {
        tile_type: kind,
        tile_level: floor + 1,
        tile_owner: owner,
        tile_xp: floor + 1,
        tile_damage: floor + 1,
        tile_defence: floor + 1,
        tile_armor: floor + 1,
        tile_max_armor: floor + 1,
        tile_health: floor + 5,
        tile_max_health: floor + 5,
    }
}

/// Builds a chest.
pub fn make_chest_tile(kind: TileKind, owner: Identity, level: u32) -> (r: TileData)
    ensures
        r == chest_tile(kind, owner, level),
{
    TileData {
        tile_type: kind,
        tile_level: level,
        tile_owner: owner,
        tile_xp: 0,
        tile_damage: 0,
        tile_defence: 0,
        tile_armor: 0,
        tile_max_armor: 0,
        tile_health: 0,
        tile_max_health: 0,
    }
}

/// Populates the board around a player who has just been placed, as
/// [`populated`] says.
pub fn populate(
    game: &mut GameData,
    pool: &mut Vec<(usize, usize)>,
    rng: &mut XorShift64,
    crowded: bool,
    has_stairs: bool,
    owner: Identity,
    floor: u32,
    enemies: u32,
    threshold: u64,
    premium: bool,
)
    requires
        old(pool)@.len() <= 100,
        on_board(old(pool)@),
        populate_fits(old(pool)@.len(), crowded, has_stairs, floor, enemies as nat),
    ensures
        (SpawnState { board: *final(game), pool: final(pool)@, rng: final(rng).a }) == populated(
            SpawnState { board: *old(game), pool: old(pool)@, rng: old(rng).a },
            crowded,
            has_stairs,
            owner,
            floor,
            enemies as nat,
            threshold,
            premium,
        ),
        on_board(final(pool)@),
        final(pool)@.len() <= old(pool)@.len(),
        final(game).same_but_cells(*old(game)),
{
    let ghost start = SpawnState { board: *game, pool: pool@, rng: rng.a };
    let ghost monster = floor_tile(TileKind::Enemy, owner, floor);
    if !crowded {
        let mut n: u32 = 0;
        while n < enemies && pool.len() > 0
            invariant
                n <= enemies,
                on_board(pool@),
                pool@.len() <= start.pool.len() <= 100,
                monster == floor_tile(TileKind::Enemy, owner, floor),
                n < enemies && pool@.len() > 0 ==> floor + 5 <= u32::MAX,
                game.same_but_cells(start.board),
                placed_times(SpawnState { board: *game, pool: pool@, rng: rng.a }, monster, (enemies - n) as nat)
                    == placed_times(start, monster, enemies as nat),
            decreases enemies - n,
        {
            let tile = make_floor_tile(TileKind::Enemy, owner, floor);
            place(game, pool, rng, tile);
            n = n + 1;
        }
        proof {
            let now = SpawnState { board: *game, pool: pool@, rng: rng.a };
            if pool@.len() == 0 {
                lemma_placed_times_without_room(now, monster, (enemies - n) as nat);
            }
            lemma_placed_times_len(start, monster, enemies as nat);
        }
    }
    if pool.len() > 0 && !has_stairs {
        let tile = make_floor_tile(TileKind::Stairs, owner, floor);
        place(game, pool, rng, tile);
    }
    if pool.len() > 0 {
        let tile = make_chest_tile(TileKind::ChestGold, owner, floor + 1);
        place(game, pool, rng, tile);
    }
    let random_index: u64 = rng.next() % 100;
    if pool.len() > 0 && premium && random_index > threshold {
        let tile = make_chest_tile(TileKind::ChestBlue, owner, 1);
        place(game, pool, rng, tile);
    }
}

impl GameData {
    /// Why `player` cannot be spawned on this board, if they cannot.
    pub open spec fn spawn_error(&self, player: Identity) -> Option<GameErrorCode> {
        if self.has_player(player) {
            Some(GameErrorCode::PlayerAlreadyExists)
        } else if self.empty_slots().len() == 0 {
            Some(GameErrorCode::BoardIsFull)
        } else {
            None
        }
    }

    /// Whether every number stays in range when `player` is spawned with
    /// the seed value `slot`: the seed of the stream, and the stats of what
    /// is placed.
    pub open spec fn spawn_fits(&self, player: Identity, slot: u64) -> bool {
        self.spawn_error(player) is None ==> {
            &&& self.empty_slots().len() + slot <= u64::MAX
            &&& populate_fits(
                (self.empty_slots().len() - 1) as nat,
                self.num_enemies() >= 6,
                self.has_stairs(),
                self.floor_id,
                3,
            )
        }
    }

    /// Tests [`GameData::spawn_fits`].
    pub fn can_spawn(&self, player: Identity, slot: u64) -> (r: bool)
        ensures
            r == self.spawn_fits(player, slot),
    {
        let census = self.census(&player);
        let free: u64 = census.empty_slots.len() as u64;
        if census.player.is_some() || free == 0 {
            return true;
        }
        let left: u64 = free - 1;
        let monsters: u64 = if census.num_enemies >= 6 { 0 } else if left >= 3 { 3 } else { left };
        let stairs: bool = !census.has_stairs && left > monsters;
        let taken: u64 = if stairs { monsters + 1 } else { monsters };
        slot <= u64::MAX - free && (!(monsters > 0 || stairs) || self.floor_id <= u32::MAX - 5) && (left <= taken
            || self.floor_id < u32::MAX)
    }

    /// The batch that spawns `player` on a new floor, with the seed value
    /// `slot`: the tile they bring is placed, and the board is populated
    /// around it by the rules of every spawn. Up to three monsters of the
    /// floor follow, but none on a board that already holds six or more; the
    /// stairs follow, but not on a board that already has some; then a basic
    /// chest; and, on a floor other than the first, a premium chest if the
    /// draw exceeds 50. On a board that was empty before, neither gate
    /// closes.
    pub open spec fn after_spawn(self, player: Identity, last_tile: TileData, slot: u64) -> SpawnState {
        let pool = self.empty_slots();
        let start = SpawnState { board: self, pool, rng: (pool.len() + slot) as u64 };
        populated(
            placed(start, last_tile),
            self.num_enemies() >= 6,
            self.has_stairs(),
            player,
            self.floor_id,
            3,
            50,
            self.floor_id > 0,
        )
    }

    /// The cell on which a spawn seeded with `slot` puts the player.
    pub open spec fn spawn_slot(self, slot: u64) -> (usize, usize) {
        let pool = self.empty_slots();
        pool[pick(SpawnState { board: self, pool, rng: (pool.len() + slot) as u64 })]
    }

    /// The batch with which every spawn on this board starts keeps to the
    /// free cells, whatever it is seeded with.
    pub proof fn lemma_batch_starts_on_free_cells(self, seed: u64)
        ensures
            keeps_to_free_cells(SpawnState { board: self, pool: self.empty_slots(), rng: seed }, self),
    {
        self.lemma_empty_slots(100);
    }

    /// A spawn writes only to cells that were empty and leaves the history
    /// alone. When it is done the player's tile stands where it was put:
    /// nothing that spawned after it has taken its cell.
    pub proof fn lemma_spawn_keeps_to_free_cells(self, player: Identity, last_tile: TileData, slot: u64)
        requires
            self.spawn_error(player) is None,
        ensures
            keeps_to_free_cells(self.after_spawn(player, last_tile, slot), self),
            self.spawn_slot(slot).0 < 10 && self.spawn_slot(slot).1 < 10,
            self.tile(self.spawn_slot(slot).0 as int, self.spawn_slot(slot).1 as int).is_empty(),
            self.after_spawn(player, last_tile, slot).board.tile(
                self.spawn_slot(slot).0 as int,
                self.spawn_slot(slot).1 as int,
            ) == last_tile,
    {
        let pool = self.empty_slots();
        let start = SpawnState { board: self, pool, rng: (pool.len() + slot) as u64 };
        self.lemma_batch_starts_on_free_cells(start.rng);
        lemma_placed(start, self, last_tile);
        lemma_populated(
            placed(start, last_tile),
            self,
            self.num_enemies() >= 6,
            self.has_stairs(),
            player,
            self.floor_id,
            3,
            50,
            self.floor_id > 0,
            self.spawn_slot(slot),
        );
    }

    /// A spawn leaves no player with more than one living tile, if none
    /// had more before and the tile that is brought is not a living tile of
    /// a player who is on the board.
    pub proof fn lemma_spawn_keeps_one_tile_each(self, player: Identity, last_tile: TileData, slot: u64)
        requires
            self.one_tile_each(),
            self.spawn_error(player) is None,
            last_tile.tile_type == TileKind::Player ==> !self.has_player(last_tile.tile_owner),
        ensures
            self.after_spawn(player, last_tile, slot).board.one_tile_each(),
    {
        let pool = self.empty_slots();
        let start = SpawnState { board: self, pool, rng: (pool.len() + slot) as u64 };
        let first = placed(start, last_tile);
        let home = self.spawn_slot(slot);
        let board = self.after_spawn(player, last_tile, slot).board;
        if last_tile.tile_type == TileKind::Player {
            self.lemma_absent_player(last_tile.tile_owner);
        }
        self.lemma_batch_starts_on_free_cells(start.rng);
        lemma_placed(start, self, last_tile);
        self.lemma_with_tile(home.0 as int, home.1 as int, last_tile);
        lemma_populated_adds_no_player(
            first,
            self,
            self.num_enemies() >= 6,
            self.has_stairs(),
            player,
            self.floor_id,
            3,
            50,
            self.floor_id > 0,
        );
        assert forall|i: int, j: int, k: int, l: int|
            0 <= i < 10 && 0 <= j < 10 && 0 <= k < 10 && 0 <= l < 10 && (#[trigger] board.tile(i, j)).tile_type
                == TileKind::Player && (#[trigger] board.tile(k, l)).tile_type == TileKind::Player && board.tile(
                i,
                j,
            ).tile_owner == board.tile(k, l).tile_owner implies i == k && j == l by {
            assert(board.tile(i, j) == first.board.tile(i, j));
            assert(board.tile(k, l) == first.board.tile(k, l));
            if !(i == home.0 && j == home.1) && !(k == home.0 && l == home.1) {
                assert(self.tile(i, j).tile_owner == self.tile(k, l).tile_owner);
            }
        }
    }

    /// Puts `player` on this board, which they enter from another floor
    /// with the tile `last_tile`, and populates the board around them. The
    /// stream is seeded with the number of empty cells plus `slot`. A board
    /// that already holds six monsters or more gets no more of them, and a
    /// board that already has stairs gets no second staircase.
    pub fn spawn_player(&mut self, player: Identity, last_tile: TileData, slot: u64) -> (r: Result<(), GameErrorCode>)
        requires
            old(self).spawn_fits(player, slot),
        ensures
            r == (match old(self).spawn_error(player) {
                Some(e) => Err::<(), GameErrorCode>(e),
                None => Ok(()),
            }),
            r is Err ==> *final(self) == *old(self),
            r is Ok ==> *final(self) == old(self).after_spawn(player, last_tile, slot).board,
    {
        let census = self.census(&player);
        if census.player.is_some() {
            return Err(GameErrorCode::PlayerAlreadyExists);
        }
        let mut empty_slots = census.empty_slots;
        if empty_slots.len() == 0 {
            return Err(GameErrorCode::BoardIsFull);
        }
        let mut rng = XorShift64 { a: empty_slots.len() as u64 + slot };
        place(self, &mut empty_slots, &mut rng, last_tile);
        let premium: bool = self.floor_id > 0;
        let floor: u32 = self.floor_id;
        populate(
            self,
            &mut empty_slots,
            &mut rng,
            census.num_enemies >= 6,
            census.has_stairs,
            player,
            floor,
            3,
            50,
            premium,
        );
        Ok(())
    }
}

} // verus!
