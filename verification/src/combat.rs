//! Fights between two tiles.
//!
//! A fight runs in rounds. In a round each side is hit by what the other
//! side's damage exceeds its own defence by. A hit first wears down armor,
//! then health, and always takes at least one point, so that every fight
//! ends. The two sides are hit at the same moment: neither hit depends on
//! the other, and both sides can fall in the same round.

use vstd::prelude::*;
use crate::action::{ActionType, GameAction};
use crate::errors::GameErrorCode;
use crate::game_data::GameData;
use crate::identity::Identity;
use crate::movement::move_player;
use crate::player_data::PlayerData;
use crate::tile::{TileData, TileKind};

verus! {

/// `a - b`, or 0 where `b` is the larger.
pub open spec fn minus_or_zero(a: u32, b: u32) -> u32 {
    if a >= b { (a - b) as u32 } else { 0 }
}

/// The points that a hit of strength `incoming` takes from a pool that
/// holds `pool` points: no more than the pool holds, but at least 1.
pub open spec fn blow(incoming: u32, pool: u32) -> u32 {
    let capped = if incoming <= pool { incoming } else { pool };
    if capped >= 1 { capped } else { 1 }
}

/// The strength of the hits that `target` takes from `source`.
pub open spec fn damage_to(target: TileData, source: TileData) -> u32 {
    minus_or_zero(source.tile_damage, target.tile_defence)
}

/// The tile as it enters a fight: armor restored to its maximum.
pub open spec fn ready(t: TileData) -> TileData {
    TileData { tile_armor: t.tile_max_armor, ..t }
}

/// The tile after one hit of strength `incoming`.
pub open spec fn hit(t: TileData, incoming: u32) -> TileData {
    if t.tile_armor > 0 {
        TileData { tile_armor: minus_or_zero(t.tile_armor, blow(incoming, t.tile_armor)), ..t }
    } else {
        TileData { tile_health: minus_or_zero(t.tile_health, blow(incoming, t.tile_health)), ..t }
    }
}

/// The tile after `n` hits of strength `incoming`.
pub open spec fn after_hits(t: TileData, incoming: u32, n: nat) -> TileData
    decreases n,
{
    if n == 0 {
        t
    } else {
        hit(after_hits(t, incoming, (n - 1) as nat), incoming)
    }
}

/// The number of hits of strength `incoming` after which the tile's
/// health is 0.
pub open spec fn rounds_to_fall(t: TileData, incoming: u32) -> nat
    decreases t.tile_armor + t.tile_health,
{
    if t.tile_health == 0 {
        0
    } else {
        1 + rounds_to_fall(hit(t, incoming), incoming)
    }
}

/// The number of rounds the fight between `attacker` and `defender`
/// lasts: until the first of them falls.
pub open spec fn fight_length(attacker: TileData, defender: TileData) -> nat {
    let a = rounds_to_fall(ready(attacker), damage_to(attacker, defender));
    let d = rounds_to_fall(ready(defender), damage_to(defender, attacker));
    if a <= d { a } else { d }
}

/// The two tiles as they leave the fight.
pub open spec fn fought(attacker: TileData, defender: TileData) -> (TileData, TileData) {
    let n = fight_length(attacker, defender);
    (
        after_hits(ready(attacker), damage_to(attacker, defender), n),
        after_hits(ready(defender), damage_to(defender, attacker), n),
    )
}

/// Hits change armor and health and nothing else.
pub proof fn lemma_after_hits_keeps(t: TileData, incoming: u32, n: nat)
    ensures
        after_hits(t, incoming, n) == (TileData {
            tile_armor: after_hits(t, incoming, n).tile_armor,
            tile_health: after_hits(t, incoming, n).tile_health,
            ..t
        }),
        after_hits(t, incoming, n).tile_armor <= t.tile_armor,
        after_hits(t, incoming, n).tile_health <= t.tile_health,
    decreases n,
{
    if n > 0 {
        lemma_after_hits_keeps(t, incoming, (n - 1) as nat);
    }
}

/// Each hit on a standing tile brings its fall one round closer.
pub proof fn lemma_rounds_left(t: TileData, incoming: u32, n: nat)
    requires
        n <= rounds_to_fall(t, incoming),
    ensures
        rounds_to_fall(after_hits(t, incoming, n), incoming) == rounds_to_fall(t, incoming) - n,
        after_hits(t, incoming, n).tile_health == 0 <==> n == rounds_to_fall(t, incoming),
    decreases n,
{
    if n > 0 {
        lemma_rounds_left(t, incoming, (n - 1) as nat);
    }
    let now = after_hits(t, incoming, n);
    assert(rounds_to_fall(now, incoming) == 0 <==> now.tile_health == 0);
}

/// A standing tile falls after at most as many hits as it has armor and
/// health: every hit takes at least one point of the one or the other.
pub proof fn lemma_rounds_to_fall_bound(t: TileData, incoming: u32)
    ensures
        rounds_to_fall(t, incoming) <= t.tile_armor + t.tile_health,
    decreases t.tile_armor + t.tile_health,
{
    if t.tile_health != 0 {
        lemma_rounds_to_fall_bound(hit(t, incoming), incoming);
    }
}

/// Every fight ends, whatever the stats of the two sides, and also where
/// neither side's damage exceeds the other's defence: it lasts no more
/// rounds than the side with less maximal armor and health has of both, and
/// at its end at least one side has no health left.
pub proof fn lemma_fight_is_short(attacker: TileData, defender: TileData)
    ensures
        fight_length(attacker, defender) <= attacker.tile_max_armor + attacker.tile_health,
        fight_length(attacker, defender) <= defender.tile_max_armor + defender.tile_health,
        fought(attacker, defender).0.tile_health == 0 || fought(attacker, defender).1.tile_health == 0,
{
    lemma_rounds_to_fall_bound(ready(attacker), damage_to(attacker, defender));
    lemma_rounds_to_fall_bound(ready(defender), damage_to(defender, attacker));
    lemma_fight_ends(attacker, defender);
}

/// A fight ends with at least one side at health 0.
pub proof fn lemma_fight_ends(attacker: TileData, defender: TileData)
    ensures
        fought(attacker, defender).0.tile_health == 0 || fought(attacker, defender).1.tile_health == 0,
{
    let n = fight_length(attacker, defender);
    lemma_rounds_left(ready(attacker), damage_to(attacker, defender), n);
    lemma_rounds_left(ready(defender), damage_to(defender, attacker), n);
}

/// Unless both sides need the same number of rounds to fall, a fight ends
/// with exactly one side at health 0: the side that falls sooner. The
/// other side is still standing.
pub proof fn lemma_fight_has_one_survivor(attacker: TileData, defender: TileData)
    requires
        rounds_to_fall(ready(attacker), damage_to(attacker, defender)) != rounds_to_fall(
            ready(defender),
            damage_to(defender, attacker),
        ),
    ensures
        (fought(attacker, defender).0.tile_health == 0) != (fought(attacker, defender).1.tile_health == 0),
        fought(attacker, defender).0.tile_health == 0 <==> rounds_to_fall(
            ready(attacker),
            damage_to(attacker, defender),
        ) < rounds_to_fall(ready(defender), damage_to(defender, attacker)),
{
    let n = fight_length(attacker, defender);
    lemma_rounds_left(ready(attacker), damage_to(attacker, defender), n);
    lemma_rounds_left(ready(defender), damage_to(defender, attacker), n);
}

/// Where both sides need the same number of rounds to fall, both fall.
pub proof fn lemma_fight_can_kill_both(attacker: TileData, defender: TileData)
    requires
        rounds_to_fall(ready(attacker), damage_to(attacker, defender)) == rounds_to_fall(
            ready(defender),
            damage_to(defender, attacker),
        ),
    ensures
        fought(attacker, defender).0.tile_health == 0,
        fought(attacker, defender).1.tile_health == 0,
{
    let n = fight_length(attacker, defender);
    lemma_rounds_left(ready(attacker), damage_to(attacker, defender), n);
    lemma_rounds_left(ready(defender), damage_to(defender, attacker), n);
}

/// The points a hit takes from a pool.
fn blow_points(incoming: u32, pool: u32) -> (r: u32)
    ensures
        r == blow(incoming, pool),
{
    let capped: u32 = if incoming <= pool { incoming } else { pool };
    if capped >= 1 { capped } else { 1 }
}

/// Lets one hit of strength `incoming` fall on the tile.
fn take_hit(t: &mut TileData, incoming: u32)
    ensures
        *final(t) == hit(*old(t), incoming),
{
    if t.tile_armor > 0 {
        t.tile_armor = t.tile_armor.saturating_sub(blow_points(incoming, t.tile_armor));
    } else {
        t.tile_health = t.tile_health.saturating_sub(blow_points(incoming, t.tile_health));
    }
}

/// Fights the fight between two tiles to its end and returns both as they
/// leave it. At least one of them has no health left.
pub fn resolve_combat(attacker: TileData, defender: TileData) -> (r: (TileData, TileData))
    ensures
        r == fought(attacker, defender),
        r.0.tile_health == 0 || r.1.tile_health == 0,
{
    let mut a = attacker;
    let mut d = defender;
    a.tile_armor = a.tile_max_armor;
    d.tile_armor = d.tile_max_armor;
    let ghost to_a = damage_to(attacker, defender);
    let ghost to_d = damage_to(defender, attacker);
    let ghost fall_a = rounds_to_fall(ready(attacker), to_a);
    let ghost fall_d = rounds_to_fall(ready(defender), to_d);
    let ghost mut n: nat = 0;
    proof {
        lemma_rounds_left(ready(attacker), to_a, 0);
        lemma_rounds_left(ready(defender), to_d, 0);
    }
    while a.tile_health > 0 && d.tile_health > 0
        invariant
            n <= fall_a,
            n <= fall_d,
            to_a == damage_to(attacker, defender),
            to_d == damage_to(defender, attacker),
            fall_a == rounds_to_fall(ready(attacker), to_a),
            fall_d == rounds_to_fall(ready(defender), to_d),
            a == after_hits(ready(attacker), to_a, n),
            d == after_hits(ready(defender), to_d, n),
            a.tile_health == 0 <==> n == fall_a,
            d.tile_health == 0 <==> n == fall_d,
        decreases fall_a - n,
    {
        proof {
            lemma_after_hits_keeps(ready(attacker), to_a, n);
            lemma_after_hits_keeps(ready(defender), to_d, n);
        }
        let player_damage: u32 = d.tile_damage.saturating_sub(a.tile_defence);
        let enemy_damage: u32 = a.tile_damage.saturating_sub(d.tile_defence);
        take_hit(&mut a, player_damage);
        take_hit(&mut d, enemy_damage);
        proof {
            n = n + 1;
            lemma_rounds_left(ready(attacker), to_a, n);
            lemma_rounds_left(ready(defender), to_d, n);
        }
    }
    (a, d)
}

/// The record of the death of the unit that stood at (`x`, `y`) and left
/// the tile `fallen` behind, on a board whose counter stands at `id`.
pub open spec fn death_record(id: u64, x: int, y: int, fallen: TileData) -> GameAction {
    GameAction {
        action_id: id,
        action_type: ActionType::PlayerDied,
        from_x: x as u8,
        from_y: y as u8,
        to_x: x as u8,
        to_y: y as u8,
        tile: fallen,
        amount: 0,
    }
}

/// The experience that a win over `loser` is worth: its level plus one.
pub open spec fn bounty(loser: TileData) -> int {
    loser.tile_level + 1
}

/// Whether every number stays in range when the unit at (`px`, `py`)
/// attacks the one at (`ex`, `ey`): if the attacker falls, its death can be
/// recorded; if it survives, the bounty and the levels it pays for fit, on
/// the tile and on the record.
pub open spec fn fight_fits(player: PlayerData, game: GameData, px: int, py: int, ex: int, ey: int) -> bool {
    let (unit, foe) = fought(game.tile(px, py), game.tile(ex, ey));
    &&& unit.tile_health == 0 ==> game.log_fits()
    &&& unit.tile_health > 0 ==> {
        &&& bounty(foe) <= u32::MAX
        &&& player.progress().fits(bounty(foe) as u32)
        &&& unit.progress().fits(bounty(foe) as u32)
    }
}

/// The board after the unit at (`px`, `py`) attacked the one at
/// (`ex`, `ey`). If the attacker falls, its cell is cleared (empty and
/// owned by nobody), the defender stays as the fight left it, and the death
/// is recorded with the cleared tile. Otherwise the attacker earns the
/// bounty and takes the defender's cell, and the cell it left is cleared.
pub open spec fn board_after_fight(game: GameData, px: int, py: int, ex: int, ey: int) -> GameData {
    let (unit, foe) = fought(game.tile(px, py), game.tile(ex, ey));
    let after = game.with_tile(px, py, unit).with_tile(ex, ey, foe);
    if unit.tile_health == 0 {
        after.with_tile(px, py, unit.vacated()).logged(death_record(game.id_counter, px, py, unit.vacated()))
    } else {
        after.with_tile(px, py, rewarded(unit, foe)).moved(px, py, ex, ey)
    }
}

/// The winner `unit` of a fight once it has earned the bounty on `foe`
/// and taken the levels that it pays for.
pub open spec fn rewarded(unit: TileData, foe: TileData) -> TileData {
    unit.with_progress(unit.progress().with_xp(bounty(foe) as u32))
}

/// The tile on the attacker's cell (`px`, `py`) after it attacked the
/// one at (`ex`, `ey`): cleared, whether the attacker fell or went on to the
/// defender's cell. Its stats are those the attacker had last.
pub open spec fn attacker_cell_after_fight(game: GameData, px: int, py: int, ex: int, ey: int) -> TileData {
    let (unit, foe) = fought(game.tile(px, py), game.tile(ex, ey));
    if unit.tile_health == 0 {
        unit.vacated()
    } else {
        rewarded(unit, foe).vacated()
    }
}

/// The tile on the defender's cell (`ex`, `ey`) after the unit at
/// (`px`, `py`) attacked it: the defender as the fight left it, if the
/// attacker fell, and the attacker with its reward, if it did not.
pub open spec fn defender_cell_after_fight(game: GameData, px: int, py: int, ex: int, ey: int) -> TileData {
    let (unit, foe) = fought(game.tile(px, py), game.tile(ex, ey));
    if unit.tile_health == 0 {
        foe
    } else {
        rewarded(unit, foe).arrived()
    }
}

/// The record of the player whose unit at (`px`, `py`) attacked the one
/// at (`ex`, `ey`): all progress lost if the unit fell, the bounty earned
/// otherwise.
pub open spec fn player_after_fight(player: PlayerData, game: GameData, px: int, py: int, ex: int, ey: int) -> PlayerData {
    let (unit, foe) = fought(game.tile(px, py), game.tile(ex, ey));
    if unit.tile_health == 0 {
        player.defeated()
    } else {
        player.with_progress(player.progress().with_xp(bounty(foe) as u32))
    }
}

/// Tests [`fight_fits`], by fighting the fight on copies of the two tiles.
pub fn can_fight(
    player_data: &PlayerData,
    game: &GameData,
    player_pos_x: usize,
    player_pos_y: usize,
    enemy_x: usize,
    enemy_y: usize,
) -> (r: bool)
    requires
        player_pos_x < 10,
        player_pos_y < 10,
        enemy_x < 10,
        enemy_y < 10,
    ensures
        r == fight_fits(
            *player_data,
            *game,
            player_pos_x as int,
            player_pos_y as int,
            enemy_x as int,
            enemy_y as int,
        ),
{
    let (unit, foe) = resolve_combat(game.data[player_pos_x][player_pos_y], game.data[enemy_x][enemy_y]);
    if unit.tile_health == 0 {
        game.can_log()
    } else if foe.tile_level == u32::MAX {
        false
    } else {
        let amount: u32 = foe.tile_level + 1;
        player_data.read_progress().can_add_xp(amount) && unit.read_progress().can_add_xp(amount)
    }
}

/// Lets the unit at (`player_pos_x`, `player_pos_y`) attack the one at
/// (`enemy_x`, `enemy_y`) and settles the outcome on the board and on the
/// attacking player's record.
pub fn fight_enemy(
    player_data: &mut PlayerData,
    game: &mut GameData,
    player_pos_x: usize,
    player_pos_y: usize,
    enemy_x: usize,
    enemy_y: usize,
) -> (r: Result<(), GameErrorCode>)
    requires
        player_pos_x < 10,
        player_pos_y < 10,
        enemy_x < 10,
        enemy_y < 10,
        player_pos_x != enemy_x || player_pos_y != enemy_y,
        fight_fits(
            *old(player_data),
            *old(game),
            player_pos_x as int,
            player_pos_y as int,
            enemy_x as int,
            enemy_y as int,
        ),
    ensures
        r is Ok,
        old(game).wf() ==> final(game).wf(),
        *final(game) == board_after_fight(
            *old(game),
            player_pos_x as int,
            player_pos_y as int,
            enemy_x as int,
            enemy_y as int,
        ),
        *final(player_data) == player_after_fight(
            *old(player_data),
            *old(game),
            player_pos_x as int,
            player_pos_y as int,
            enemy_x as int,
            enemy_y as int,
        ),
        old(player_data).wf() ==> final(player_data).wf(),
        final(game).tile(player_pos_x as int, player_pos_y as int) == attacker_cell_after_fight(
            *old(game),
            player_pos_x as int,
            player_pos_y as int,
            enemy_x as int,
            enemy_y as int,
        ),
        final(game).tile(enemy_x as int, enemy_y as int) == defender_cell_after_fight(
            *old(game),
            player_pos_x as int,
            player_pos_y as int,
            enemy_x as int,
            enemy_y as int,
        ),
        forall|i: int, j: int|
            0 <= i < 10 && 0 <= j < 10 && !(i == player_pos_x && j == player_pos_y) && !(i == enemy_x && j == enemy_y)
                ==> #[trigger] final(game).tile(i, j) == old(game).tile(i, j),
{
    let (mut unit, foe) = resolve_combat(game.data[player_pos_x][player_pos_y], game.data[enemy_x][enemy_y]);
    game.set_tile(player_pos_x, player_pos_y, unit);
    game.set_tile(enemy_x, enemy_y, foe);
    if unit.tile_health == 0 {
        unit.tile_type = TileKind::Empty;
        unit.tile_owner = Identity::default();
        game.set_tile(player_pos_x, player_pos_y, unit);
        let new_game_action = GameAction {
            action_id: game.id_counter,
            action_type: ActionType::PlayerDied,
            from_x: player_pos_x as u8,
            from_y: player_pos_y as u8,
            to_x: player_pos_x as u8,
            to_y: player_pos_y as u8,
            tile: unit,
            amount: 0,
        };
        player_data.current_floor = 0;
        player_data.xp = 0;
        player_data.level = 0;
        game.add_new_game_action(new_game_action);
        Ok(())
    } else {
        let amount: u32 = foe.tile_level + 1;
        player_data.add_xp(amount);
        unit.add_xp(amount);
        game.set_tile(player_pos_x, player_pos_y, unit);
        move_player(game, player_pos_x, player_pos_y, enemy_x, enemy_y)
    }
}

} // verus!
