//! The requests a player can make, each on a record and a board that the
//! caller has loaded and will store again.
//!
//! The caller has made sure that the request comes from the player, and
//! supplies the clock readings. A refused request leaves both the record
//! and the board as they were.

use vstd::prelude::*;
use crate::constants::MAX_ENERGY;
use crate::errors::GameErrorCode;
use crate::game_data::GameData;
use crate::identity::Identity;
use crate::player_data::{refill, PlayerData};
use crate::tile::TileData;

verus! {

/// The record of a player who has just been created for `signer` at time `now`.
pub open spec fn fresh_player(player: PlayerData, signer: Identity, now: i64) -> PlayerData {
    PlayerData {
        energy: MAX_ENERGY,
        health: 10,
        max_health: 10,
        level: 1,
        damage: 1,
        last_login: now,
        authority: signer,
        ..player
    }
}

/// The record as a turn finds it: energy brought up to date at time
/// `now`, and the request numbered `counter` noted.
pub open spec fn ready_player(player: PlayerData, counter: u16, now: i64) -> PlayerData {
    PlayerData { last_id: counter, ..player.with_energy_at(now) }
}

/// Why a turn requested at time `now` is refused, if it is: for want of
/// energy, or by the board. A player who is on the board moves; one who is
/// not enters it.
pub open spec fn turn_error(player: PlayerData, game: GameData, x: u64, y: u64, now: i64) -> Option<GameErrorCode> {
    if player.with_energy_at(now).energy < 1 {
        Some(GameErrorCode::NotEnoughEnergy)
    } else {
        game.move_error(player.authority, x, y, !game.has_player(player.authority))
    }
}

/// Checks that `signer` is the player the record belongs to.
pub fn check_authority(player: &PlayerData, signer: &Identity) -> (r: Result<(), GameErrorCode>)
    ensures
        r == (if player.authority == *signer {
            Ok::<(), GameErrorCode>(())
        } else {
            Err(GameErrorCode::WrongAuthority)
        }),
{
    if player.authority.same(signer) {
        Ok(())
    } else {
        Err(GameErrorCode::WrongAuthority)
    }
}

/// Whether a turn requested at time `now` can be played: the time since
/// the record was last brought up to date can be measured, and every number
/// stays in range during the turn.
pub open spec fn turn_fits(player: PlayerData, game: GameData, x: u64, y: u64, now: i64) -> bool {
    &&& i64::MIN <= now - player.last_login <= i64::MAX
    &&& game.move_fits(player, x, y, !game.has_player(player.authority))
}

/// Tests [`turn_fits`].
pub fn can_take_turn(player: &PlayerData, game: &GameData, x: u64, y: u64, now: i64) -> (r: bool)
    ensures
        r == turn_fits(*player, *game, x, y, now),
{
    if now.checked_sub(player.last_login).is_none() {
        return false;
    }
    let absent: bool = game.census(&player.authority).player.is_none();
    game.can_move(player, x, y, absent)
}

/// Whether every number stays in range when `signer` opens the board
/// with the seed value `slot`, if there is one.
pub open spec fn purchase_fits(game: GameData, signer: Identity, slot: Option<u64>) -> bool {
    slot is Some ==> taken_over(game, signer).spawn_fits(signer, slot.unwrap())
}

/// Tests [`purchase_fits`].
pub fn can_buy_next_floor(game: &GameData, signer: Identity, slot: Option<u64>) -> (r: bool)
    ensures
        r == purchase_fits(*game, signer, slot),
{
    match slot {
        Some(seed) => {
            let mut board: GameData = *game;
            board.owner = signer;
            board.can_spawn(signer, seed)
        },
        None => true,
    }
}

/// Sets up the record of a new player: full energy, 10 health, level 1
/// and 1 damage.
pub fn init_player(player: &mut PlayerData, signer: Identity, now: i64) -> (r: Result<(), GameErrorCode>)
    ensures
        r is Ok,
        *final(player) == fresh_player(*old(player), signer, now),
        final(player).wf(),
{
    player.energy = MAX_ENERGY;
    player.health = 10;
    player.max_health = 10;
    player.level = 1;
    player.damage = 1;
    player.last_login = now;
    player.authority = signer;
    Ok(())
}

/// Plays a turn of `player` at time `now`: brings their energy up to
/// date, and, if they have any, lets them step onto (`x`, `y`) or, if they
/// are not on the board, enter it.
pub fn move_to_tile(player: &mut PlayerData, game: &mut GameData, counter: u16, x: u64, y: u64, now: i64) -> (r:
    Result<(), GameErrorCode>)
    requires
        turn_fits(*old(player), *old(game), x, y, now),
    ensures
        r == (match turn_error(*old(player), *old(game), x, y, now) {
            Some(e) => Err::<(), GameErrorCode>(e),
            None => Ok(()),
        }),
        r is Err ==> *final(game) == *old(game) && *final(player) == *old(player),
        r is Ok ==> *final(game) == old(game).board_after_move(ready_player(*old(player), counter, now), x, y),
        r is Ok ==> *final(player) == old(game).player_after_move(ready_player(*old(player), counter, now), x, y),
        r is Ok ==> final(game).wf(),
        old(game).wf() ==> final(game).wf(),
        old(player).wf() ==> final(player).wf(),
{
    let (energy, last_login) = refill(player.energy, player.last_login, now);
    if energy < 1 {
        return Err(GameErrorCode::NotEnoughEnergy);
    }
    let saved_energy: u32 = player.energy;
    let saved_login: i64 = player.last_login;
    let saved_id: u16 = player.last_id;
    let authority: Identity = player.authority;
    player.energy = energy;
    player.last_login = last_login;
    player.last_id = counter;
    let _ = player.move_to_tile(x, y, authority);
    let absent: bool = game.census(&authority).player.is_none();
    match game.move_to_tile(x, y, player, absent) {
        Ok(()) => Ok(()),
        Err(e) => {
            player.energy = saved_energy;
            player.last_login = saved_login;
            player.last_id = saved_id;
            Err(e)
        },
    }
}

/// Takes the player `signer` off the board and sends them one floor down.
pub fn next_floor(player: &mut PlayerData, game: &mut GameData, signer: Identity, counter: u16) -> (r: Result<
    (),
    GameErrorCode,
>)
    requires
        old(player).current_floor < u16::MAX,
    ensures
        r is Ok,
        *final(player) == (PlayerData {
            last_id: counter,
            current_floor: (old(player).current_floor + 1) as u16,
            ..*old(player)
        }),
        final(game).is_removal_of(*old(game), signer),
        !final(game).has_player(signer),
{
    player.last_id = counter;
    let _ = game.remove_player(signer);
    player.current_floor += 1;
    Ok(())
}

/// Empties the board and blanks its history.
pub fn reset_floor(player: &mut PlayerData, game: &mut GameData, counter: u16) -> (r: Result<(), GameErrorCode>)
    ensures
        r is Ok,
        *final(player) == (PlayerData { last_id: counter, ..*old(player) }),
        final(game).is_reset_of(*old(game)),
        final(game).wf(),
        forall|who: Identity| !#[trigger] final(game).has_player(who),
{
    player.last_id = counter;
    game.reset_game()
}

/// The board of the next floor as `signer` takes it over, before anyone
/// is spawned on it.
pub open spec fn taken_over(game: GameData, signer: Identity) -> GameData {
    GameData { owner: signer, ..game }
}

/// The board after `signer` opened it with the seed value `slot`: it is
/// theirs, and they were spawned on it with the tile `carried` unless the
/// seed is missing or the spawn is refused.
pub open spec fn purchased(game: GameData, signer: Identity, carried: TileData, slot: Option<u64>) -> GameData {
    let board = taken_over(game, signer);
    if slot is Some && board.spawn_error(signer) is None {
        board.after_spawn(signer, carried, slot.unwrap()).board
    } else {
        board
    }
}

/// Opens the board of the next floor for `signer`: the board becomes
/// theirs, and they are spawned on it with the tile their record carries.
/// The stream is seeded with `slot`, a reading of a clock that may have
/// failed. Without a reading, or if the spawn is refused, nobody is spawned,
/// and the request succeeds all the same.
pub fn buy_next_floor(
    player: &mut PlayerData,
    game: &mut GameData,
    signer: Identity,
    counter: u16,
    slot: Option<u64>,
) -> (r: Result<(), GameErrorCode>)
    requires
        purchase_fits(*old(game), signer, slot),
    ensures
        r is Ok,
        *final(player) == (PlayerData { last_id: counter, ..*old(player) }),
        *final(game) == purchased(*old(game), signer, old(player).tile_data.restored(), slot),
{
    player.last_id = counter;
    game.owner = signer;
    let tile = player.tile_data.restore();
    match slot {
        Some(seed) => {
            let _ = game.spawn_player(signer, tile, seed);
        },
        None => {},
    }
    Ok(())
}

} // verus!
