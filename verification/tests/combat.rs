use tufia::combat::{fight_enemy, resolve_combat};
use tufia::{ActionType, GameData, Identity, PlayerData, TileData, TileKind};

fn who(n: u8) -> Identity {
    Identity::new_from_array([n; 32])
}

fn unit(kind: TileKind, owner: u8, damage: u32, defence: u32, max_armor: u32, health: u32) -> TileData {
    TileData {
        tile_type: kind,
        tile_level: 1,
        tile_owner: who(owner),
        tile_xp: 0,
        tile_damage: damage,
        tile_defence: defence,
        tile_armor: 0,
        tile_max_armor: max_armor,
        tile_health: health,
        tile_max_health: health,
    }
}

fn record(owner: u8) -> PlayerData {
    PlayerData {
        authority: who(owner),
        name: String::from("hero"),
        level: 1,
        xp: 0,
        health: 10,
        max_health: 10,
        damage: 1,
        defence: 0,
        swords: 0,
        shields: 0,
        energy: 10,
        last_login: 0,
        last_id: 0,
        current_floor: 3,
        tile_data: TileData::default().snapshot(),
    }
}

#[test]
fn combat_wears_armor_before_health() {
    let (a, d) = resolve_combat(unit(TileKind::Player, 1, 3, 1, 2, 10), unit(TileKind::Enemy, 2, 2, 1, 1, 5));
    assert_eq!((a.tile_armor, a.tile_health), (0, 8));
    assert_eq!((d.tile_armor, d.tile_health), (0, 0));
}

#[test]
fn combat_without_damage_still_ends() {
    let (a, d) = resolve_combat(unit(TileKind::Player, 1, 0, 5, 0, 3), unit(TileKind::Enemy, 2, 0, 5, 0, 2));
    assert_eq!(a.tile_health, 1);
    assert_eq!(d.tile_health, 0);
}

#[test]
fn combat_can_end_with_both_sides_down() {
    let (a, d) = resolve_combat(unit(TileKind::Player, 1, 1, 0, 0, 1), unit(TileKind::Enemy, 2, 1, 0, 0, 1));
    assert_eq!(a.tile_health, 0);
    assert_eq!(d.tile_health, 0);
}

#[test]
fn combat_overkill_stops_at_zero() {
    let (a, d) = resolve_combat(unit(TileKind::Player, 1, 100, 0, 0, 7), unit(TileKind::Enemy, 2, 50, 0, 0, 7));
    assert_eq!(a.tile_health, 0);
    assert_eq!(d.tile_health, 0);
}

#[test]
fn combat_attacker_can_lose() {
    let (a, d) = resolve_combat(unit(TileKind::Player, 1, 1, 0, 0, 3), unit(TileKind::Enemy, 2, 4, 2, 3, 20));
    assert_eq!(a.tile_health, 0);
    assert_eq!((d.tile_armor, d.tile_health), (2, 20));
}

#[test]
fn combat_restores_armor_first() {
    let mut a = unit(TileKind::Player, 1, 2, 0, 5, 4);
    a.tile_armor = 99;
    let (a, d) = resolve_combat(a, unit(TileKind::Enemy, 2, 2, 0, 0, 4));
    assert_eq!((a.tile_armor, a.tile_health), (1, 4));
    assert_eq!(d.tile_health, 0);
}

#[test]
fn combat_with_a_fallen_side_does_nothing_but_restore_armor() {
    let fallen = unit(TileKind::Player, 1, 9, 9, 4, 0);
    let other = unit(TileKind::Enemy, 2, 9, 9, 2, 6);
    let (a, d) = resolve_combat(fallen, other);
    assert_eq!((a.tile_armor, a.tile_health), (4, 0));
    assert_eq!((d.tile_armor, d.tile_health), (2, 6));
}

#[test]
fn combat_changes_only_armor_and_health() {
    let start_a = unit(TileKind::Player, 1, 3, 1, 2, 10);
    let start_d = unit(TileKind::Enemy, 2, 2, 1, 1, 5);
    let (a, d) = resolve_combat(start_a, start_d);
    assert_eq!(TileData { tile_armor: 0, tile_health: 10, ..a }, start_a);
    assert_eq!(TileData { tile_armor: 0, tile_health: 5, ..d }, start_d);
}

#[test]
fn combat_always_leaves_a_side_down() {
    for damage in 0..6u32 {
        for defence in 0..4u32 {
            for armor in 0..3u32 {
                for health in 0..5u32 {
                    let a = unit(TileKind::Player, 1, damage, defence, armor, health);
                    let d = unit(TileKind::Enemy, 2, 2, 1, 1, 3);
                    let (x, y) = resolve_combat(a, d);
                    assert!(x.tile_health == 0 || y.tile_health == 0);
                }
            }
        }
    }
}

#[test]
fn fight_enemy_winner_takes_the_cell_and_the_bounty() {
    let mut game = GameData::default();
    let mut player = record(1);
    game.set_tile(0, 0, unit(TileKind::Player, 1, 3, 0, 0, 10));
    game.set_tile(0, 1, unit(TileKind::Enemy, 1, 1, 1, 1, 5));
    assert!(fight_enemy(&mut player, &mut game, 0, 0, 0, 1).is_ok());
    let mut winner = unit(TileKind::Player, 1, 3, 0, 0, 10);
    winner.tile_health = 6;
    winner.tile_xp = 2;
    assert_eq!(game.data[0][1], winner);
    assert_eq!(game.data[0][0], TileData { tile_type: TileKind::Empty, tile_owner: Identity::default(), ..winner });
    assert_eq!((player.level, player.xp), (1, 2));
    assert_eq!(player.current_floor, 3);
    assert_eq!(game.id_counter, 0);
}

#[test]
fn fight_enemy_bounty_can_level_tile_and_record() {
    let mut game = GameData::default();
    let mut player = record(1);
    player.xp = 4;
    player.health = 2;
    let mut hero = unit(TileKind::Player, 1, 3, 0, 0, 10);
    hero.tile_xp = 3;
    game.set_tile(5, 5, hero);
    game.set_tile(4, 5, unit(TileKind::Enemy, 9, 1, 1, 1, 5));
    assert!(fight_enemy(&mut player, &mut game, 5, 5, 4, 5).is_ok());
    // The tile leaves the fight with 6 health, earns 2, reaches level 2 and is healed.
    let t = game.data[4][5];
    assert_eq!(t.tile_type, TileKind::Player);
    assert_eq!(t.tile_owner, who(1));
    assert_eq!((t.tile_level, t.tile_xp, t.tile_health, t.tile_max_health, t.tile_damage), (2, 0, 11, 11, 4));
    assert_eq!((player.level, player.xp, player.health, player.max_health, player.damage), (2, 1, 11, 11, 2));
    assert_eq!(game.data[5][5].tile_type, TileKind::Empty);
    assert_eq!(game.data[5][5].tile_owner, Identity::default());
}

#[test]
fn fight_enemy_loser_is_cleared_and_loses_all_progress() {
    let mut game = GameData::default();
    let mut player = record(1);
    player.level = 4;
    player.xp = 17;
    game.set_tile(2, 2, unit(TileKind::Player, 1, 1, 0, 0, 3));
    game.set_tile(2, 3, unit(TileKind::Enemy, 1, 4, 2, 3, 20));
    assert!(fight_enemy(&mut player, &mut game, 2, 2, 2, 3).is_ok());
    let fallen = TileData {
        tile_type: TileKind::Empty,
        tile_owner: Identity::default(),
        tile_health: 0,
        ..unit(TileKind::Player, 1, 1, 0, 0, 3)
    };
    let fallen = TileData { tile_max_health: 3, ..fallen };
    assert_eq!(game.data[2][2], fallen);
    assert_eq!(game.data[2][3].tile_type, TileKind::Enemy);
    assert_eq!((game.data[2][3].tile_armor, game.data[2][3].tile_health), (2, 20));
    assert_eq!((player.level, player.xp, player.current_floor), (0, 0, 0));
    assert_eq!((player.health, player.max_health, player.damage), (10, 10, 1));
    assert_eq!(game.id_counter, 1);
    assert_eq!(game.action_index, 1);
    let death = game.game_actions[1];
    assert_eq!(death.action_type, ActionType::PlayerDied);
    assert_eq!(death.action_id, 0);
    assert_eq!((death.from_x, death.from_y, death.to_x, death.to_y), (2, 2, 2, 2));
    assert_eq!(death.tile, fallen);
    assert_eq!(death.amount, 0);
}

#[test]
fn fight_enemy_when_both_fall_the_attacker_is_the_one_cleared() {
    let mut game = GameData::default();
    let mut player = record(1);
    game.set_tile(0, 0, unit(TileKind::Player, 1, 1, 0, 0, 1));
    game.set_tile(1, 0, unit(TileKind::Enemy, 2, 1, 0, 0, 1));
    assert!(fight_enemy(&mut player, &mut game, 0, 0, 1, 0).is_ok());
    assert_eq!(game.data[0][0].tile_type, TileKind::Empty);
    assert_eq!(game.data[0][0].tile_owner, Identity::default());
    assert_eq!(game.data[1][0].tile_type, TileKind::Enemy);
    assert_eq!(game.data[1][0].tile_health, 0);
    assert_eq!(player.level, 0);
}

#[test]
fn fight_enemy_touches_no_other_cell() {
    let mut game = GameData::default();
    let mut player = record(1);
    game.set_tile(0, 0, unit(TileKind::Player, 1, 3, 0, 0, 10));
    game.set_tile(0, 1, unit(TileKind::Enemy, 1, 1, 1, 1, 5));
    game.set_tile(9, 9, unit(TileKind::Stairs, 3, 1, 1, 1, 5));
    let before = game;
    assert!(fight_enemy(&mut player, &mut game, 0, 0, 0, 1).is_ok());
    for i in 0..10 {
        for j in 0..10 {
            if (i, j) != (0, 0) && (i, j) != (0, 1) {
                assert_eq!(game.data[i][j], before.data[i][j]);
            }
        }
    }
    assert_eq!(game.game_actions, before.game_actions);
}
