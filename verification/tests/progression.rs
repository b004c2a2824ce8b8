use tufia::progression::Progress;
use tufia::player_data::refill;
use tufia::{Identity, PlayerData, TileData, TileKind, MAX_ENERGY, TIME_TO_REFILL_ENERGY};

fn record(level: u32, xp: u32, health: u32, max_health: u32, damage: u32) -> PlayerData {
    PlayerData {
        authority: Identity::new_from_array([7; 32]),
        name: String::new(),
        level,
        xp,
        health,
        max_health,
        damage,
        defence: 0,
        swords: 0,
        shields: 0,
        energy: 0,
        last_login: 0,
        last_id: 0,
        current_floor: 0,
        tile_data: TileData::default().snapshot(),
    }
}

#[test]
fn add_xp_below_threshold_keeps_level_and_health() {
    let mut p = record(1, 0, 3, 10, 1);
    p.add_xp(4);
    assert_eq!((p.level, p.xp, p.health, p.max_health, p.damage), (1, 4, 3, 10, 1));
}

#[test]
fn add_xp_at_threshold_levels_up_and_heals() {
    let mut p = record(1, 0, 3, 10, 1);
    p.add_xp(5);
    assert_eq!((p.level, p.xp, p.health, p.max_health, p.damage), (2, 0, 11, 11, 2));
}

#[test]
fn add_xp_large_grant_takes_several_levels() {
    // 5 + 10 + 15 + 20 + 25 = 75 pay for five levels; 25 are left, short of 30.
    let mut p = record(1, 0, 1, 10, 1);
    p.add_xp(100);
    assert_eq!((p.level, p.xp, p.health, p.max_health, p.damage), (6, 25, 15, 15, 6));
}

#[test]
fn add_xp_adds_to_what_is_there() {
    let mut p = record(2, 7, 4, 9, 3);
    p.add_xp(3);
    assert_eq!((p.level, p.xp, p.health, p.max_health, p.damage), (3, 0, 10, 10, 4));
}

#[test]
fn add_xp_at_level_zero_gives_the_first_level_for_nothing() {
    let mut p = record(0, 0, 2, 10, 1);
    p.add_xp(3);
    assert_eq!((p.level, p.xp, p.health, p.max_health, p.damage), (1, 3, 11, 11, 2));
}

#[test]
fn add_xp_zero_amount_changes_nothing_at_level_one() {
    let mut p = record(1, 2, 4, 10, 1);
    let before = p.clone();
    p.add_xp(0);
    assert_eq!(p, before);
}

#[test]
fn add_xp_leaves_the_rest_of_the_record_alone() {
    let mut p = record(1, 0, 3, 10, 1);
    p.energy = 4;
    p.defence = 9;
    p.current_floor = 2;
    p.add_xp(5);
    assert_eq!((p.energy, p.defence, p.current_floor, p.last_login), (4, 9, 2, 0));
}

#[test]
fn progress_add_xp_matches_the_record() {
    let start = Progress { level: 3, xp: 14, health: 1, max_health: 12, damage: 4 };
    let end = start.add_xp(1);
    assert_eq!(end, Progress { level: 4, xp: 0, health: 13, max_health: 13, damage: 5 });
}

#[test]
fn tile_add_xp_levels_the_tile() {
    let mut t = TileData::default();
    t.tile_type = TileKind::Player;
    t.tile_level = 1;
    t.tile_xp = 4;
    t.tile_health = 2;
    t.tile_max_health = 10;
    t.tile_damage = 3;
    t.tile_defence = 8;
    t.add_xp(2);
    assert_eq!((t.tile_level, t.tile_xp, t.tile_health, t.tile_max_health, t.tile_damage), (2, 1, 11, 11, 4));
    assert_eq!(t.tile_defence, 8);
    assert_eq!(t.tile_type, TileKind::Player);
}

#[test]
fn xp_threshold_is_five_times_the_level() {
    assert_eq!(record(0, 0, 1, 1, 1).xp_threshold(), 0);
    assert_eq!(record(1, 0, 1, 1, 1).xp_threshold(), 5);
    assert_eq!(record(7, 0, 1, 1, 1).xp_threshold(), 35);
}

#[test]
fn constants_have_their_values() {
    assert_eq!(MAX_ENERGY, 10);
    assert_eq!(TIME_TO_REFILL_ENERGY, 600);
}

#[test]
fn update_energy_consumes_whole_intervals_and_keeps_the_rest() {
    let mut p = record(1, 0, 10, 10, 1);
    p.energy = 5;
    p.last_login = 1_000_000;
    assert!(p.update_energy(1_000_000 + 1850).is_ok());
    assert_eq!(p.energy, 8);
    assert_eq!(p.last_login, 1_000_000 + 1800);
}

#[test]
fn update_energy_stops_at_the_cap_and_takes_the_present_time() {
    let mut p = record(1, 0, 10, 10, 1);
    p.energy = 8;
    p.last_login = 100;
    assert!(p.update_energy(100 + 6000).is_ok());
    assert_eq!(p.energy, 10);
    assert_eq!(p.last_login, 6100);
}

#[test]
fn update_energy_reaching_the_cap_exactly_takes_the_present_time() {
    let mut p = record(1, 0, 10, 10, 1);
    p.energy = 9;
    p.last_login = 0;
    assert!(p.update_energy(650).is_ok());
    assert_eq!(p.energy, 10);
    assert_eq!(p.last_login, 650);
}

#[test]
fn update_energy_short_wait_changes_nothing() {
    let mut p = record(1, 0, 10, 10, 1);
    p.energy = 3;
    p.last_login = 500;
    assert!(p.update_energy(500 + 599).is_ok());
    assert_eq!(p.energy, 3);
    assert_eq!(p.last_login, 500);
}

#[test]
fn update_energy_when_full_only_moves_the_time() {
    let mut p = record(1, 0, 10, 10, 1);
    p.energy = 10;
    p.last_login = 500;
    assert!(p.update_energy(777).is_ok());
    assert_eq!(p.energy, 10);
    assert_eq!(p.last_login, 777);
}

#[test]
fn update_energy_with_a_clock_that_went_back() {
    let mut p = record(1, 0, 10, 10, 1);
    p.energy = 2;
    p.last_login = 5000;
    assert!(p.update_energy(100).is_ok());
    assert_eq!(p.energy, 2);
    assert_eq!(p.last_login, 5000);
}

#[test]
fn update_energy_twice_adds_up() {
    let mut p = record(1, 0, 10, 10, 1);
    p.energy = 0;
    p.last_login = 0;
    assert!(p.update_energy(700).is_ok());
    assert_eq!((p.energy, p.last_login), (1, 600));
    assert!(p.update_energy(1250).is_ok());
    assert_eq!((p.energy, p.last_login), (2, 1200));
}

#[test]
fn refill_is_the_rule_behind_update_energy() {
    assert_eq!(refill(5, 0, 1850), (8, 1800));
    assert_eq!(refill(0, 0, 600 * 10), (10, 6000));
    assert_eq!(refill(0, 0, 600 * 10 + 5), (10, 6005));
    assert_eq!(refill(0, 10, 609), (0, 10));
    assert_eq!(refill(12, 10, 5000), (12, 5000));
}

#[test]
fn record_move_to_tile_changes_nothing() {
    let mut p = record(1, 2, 3, 4, 5);
    let before = p.clone();
    assert!(p.move_to_tile(3, 4, Identity::new_from_array([1; 32])).is_ok());
    assert_eq!(p, before);
}
