//! Moving a unit from one cell to another.

use vstd::prelude::*;
use crate::errors::GameErrorCode;
use crate::game_data::GameData;
use crate::identity::Identity;
use crate::tile::{TileData, TileKind};

verus! {

/// Moves the unit in row `player_pos_x`, column `player_pos_y` to row
/// `new_pos_x`, column `new_pos_y`. The unit arrives with its owner and all
/// its stats, as a player tile; whatever stood on the target is gone. The
/// cell it left is cleared: empty and owned by nobody.
pub fn move_player(
    game: &mut GameData,
    player_pos_x: usize,
    player_pos_y: usize,
    new_pos_x: usize,
    new_pos_y: usize,
) -> (r: Result<(), GameErrorCode>)
    requires
        player_pos_x < 10,
        player_pos_y < 10,
        new_pos_x < 10,
        new_pos_y < 10,
    ensures
        r is Ok,
        *final(game) == old(game).moved(
            player_pos_x as int,
            player_pos_y as int,
            new_pos_x as int,
            new_pos_y as int,
        ),
        final(game).same_but_cells(*old(game)),
        final(game).tile(player_pos_x as int, player_pos_y as int) == old(game).tile(
            player_pos_x as int,
            player_pos_y as int,
        ).vacated(),
        player_pos_x != new_pos_x || player_pos_y != new_pos_y ==> final(game).tile(new_pos_x as int, new_pos_y as int)
            == old(game).tile(player_pos_x as int, player_pos_y as int).arrived(),
        forall|i: int, j: int|
            0 <= i < 10 && 0 <= j < 10 && !(i == player_pos_x && j == player_pos_y) && !(i == new_pos_x && j == new_pos_y)
                ==> #[trigger] final(game).tile(i, j) == old(game).tile(i, j),
{
    let unit: TileData = game.data[player_pos_x][player_pos_y];
    game.set_tile(new_pos_x, new_pos_y, TileData { tile_type: TileKind::Player, ..unit });
    game.set_tile(
        player_pos_x,
        player_pos_y,
        TileData { tile_type: TileKind::Empty, tile_owner: Identity::default(), ..unit },
    );
    proof {
        old(game).lemma_moved(player_pos_x as int, player_pos_y as int, new_pos_x as int, new_pos_y as int);
    }
    Ok(())
}

} // verus!
