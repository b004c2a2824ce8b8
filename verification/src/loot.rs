//! Opening chests.

use vstd::prelude::*;
use crate::errors::GameErrorCode;
use crate::game_data::GameData;
use crate::movement::move_player;
use crate::player_data::PlayerData;
use crate::tile::{TileData, TileKind};

verus! {

/// Whether the kind is one of the two kinds of chest.
pub open spec fn is_chest(kind: TileKind) -> bool {
    kind == TileKind::ChestGold || kind == TileKind::ChestBlue
}

/// Whether every number stays in range when the unit at (`px`, `py`)
/// opens what stands at (`cx`, `cy`).
pub open spec fn chest_fits(player: PlayerData, game: GameData, px: int, py: int, cx: int, cy: int) -> bool {
    &&& is_chest(game.tile(cx, cy).tile_type) ==> game.tile(px, py).can_boost()
    &&& game.tile(cx, cy).tile_type == TileKind::ChestBlue ==> player.can_boost()
}

/// The board after the unit at (`px`, `py`) opened what stands at
/// (`cx`, `cy`): a chest of either kind gives the unit one point of
/// damage, defence, health and maximal health; then the unit moves there.
pub open spec fn board_after_chest(game: GameData, px: int, py: int, cx: int, cy: int) -> GameData {
    game.with_tile(px, py, gifted(game, px, py, cx, cy)).moved(px, py, cx, cy)
}

/// The unit at (`px`, `py`) as it is once it has opened what stands at
/// (`cx`, `cy`): with one more point of damage, defence, health and maximal
/// health if that is a chest, and as it was if not.
pub open spec fn gifted(game: GameData, px: int, py: int, cx: int, cy: int) -> TileData {
    if is_chest(game.tile(cx, cy).tile_type) {
        game.tile(px, py).boosted()
    } else {
        game.tile(px, py)
    }
}

/// The player record after its player opened a tile of kind `kind`: only
/// a premium chest reaches the record, with the same four points.
pub open spec fn player_after_chest(player: PlayerData, kind: TileKind) -> PlayerData {
    if kind == TileKind::ChestBlue { player.boosted() } else { player }
}

/// Tests [`chest_fits`].
pub fn can_open_chest(
    player_data: &PlayerData,
    game: &GameData,
    player_pos_x: usize,
    player_pos_y: usize,
    chest_pos_x: usize,
    chest_pos_y: usize,
) -> (r: bool)
    requires
        player_pos_x < 10,
        player_pos_y < 10,
        chest_pos_x < 10,
        chest_pos_y < 10,
    ensures
        r == chest_fits(
            *player_data,
            *game,
            player_pos_x as int,
            player_pos_y as int,
            chest_pos_x as int,
            chest_pos_y as int,
        ),
{
    match game.data[chest_pos_x][chest_pos_y].tile_type {
        TileKind::ChestGold => game.data[player_pos_x][player_pos_y].has_room_to_boost(),
        TileKind::ChestBlue => game.data[player_pos_x][player_pos_y].has_room_to_boost()
            && player_data.has_room_to_boost(),
        _ => true,
    }
}

/// Lets the unit at (`player_pos_x`, `player_pos_y`) open the chest at
/// (`chest_pos_x`, `chest_pos_y`) and step onto its cell.
pub fn open_chest(
    player_data: &mut PlayerData,
    game: &mut GameData,
    player_pos_x: usize,
    player_pos_y: usize,
    chest_pos_x: usize,
    chest_pos_y: usize,
) -> (r: Result<(), GameErrorCode>)
    requires
        player_pos_x < 10,
        player_pos_y < 10,
        chest_pos_x < 10,
        chest_pos_y < 10,
        chest_fits(
            *old(player_data),
            *old(game),
            player_pos_x as int,
            player_pos_y as int,
            chest_pos_x as int,
            chest_pos_y as int,
        ),
    ensures
        r is Ok,
        *final(game) == board_after_chest(
            *old(game),
            player_pos_x as int,
            player_pos_y as int,
            chest_pos_x as int,
            chest_pos_y as int,
        ),
        *final(player_data) == player_after_chest(
            *old(player_data),
            old(game).tile(chest_pos_x as int, chest_pos_y as int).tile_type,
        ),
        old(player_data).wf() ==> final(player_data).wf(),
        final(game).same_but_cells(*old(game)),
        final(game).tile(player_pos_x as int, player_pos_y as int) == gifted(
            *old(game),
            player_pos_x as int,
            player_pos_y as int,
            chest_pos_x as int,
            chest_pos_y as int,
        ).vacated(),
        player_pos_x != chest_pos_x || player_pos_y != chest_pos_y ==> final(game).tile(
            chest_pos_x as int,
            chest_pos_y as int,
        ) == gifted(
            *old(game),
            player_pos_x as int,
            player_pos_y as int,
            chest_pos_x as int,
            chest_pos_y as int,
        ).arrived(),
        forall|i: int, j: int|
            0 <= i < 10 && 0 <= j < 10 && !(i == player_pos_x && j == player_pos_y) && !(i == chest_pos_x && j
                == chest_pos_y) ==> #[trigger] final(game).tile(i, j) == old(game).tile(i, j),
{
    let kind: TileKind = game.data[chest_pos_x][chest_pos_y].tile_type;
    let mut unit: TileData = game.data[player_pos_x][player_pos_y];
    match kind {
        TileKind::ChestGold => {
            unit.tile_damage += 1;
            unit.tile_defence += 1;
            unit.tile_health += 1;
            unit.tile_max_health += 1;
        },
        TileKind::ChestBlue => {
            unit.tile_damage += 1;
            unit.tile_defence += 1;
            unit.tile_health += 1;
            unit.tile_max_health += 1;
            player_data.damage += 1;
            player_data.defence += 1;
            player_data.health += 1;
            player_data.max_health += 1;
        },
        _ => {},
    }
    game.set_tile(player_pos_x, player_pos_y, unit);
    move_player(game, player_pos_x, player_pos_y, chest_pos_x, chest_pos_y)
}

} // verus!
