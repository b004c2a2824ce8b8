use tufia::spawn::{make_chest_tile, make_floor_tile, place, populate};
use tufia::{GameData, GameErrorCode, Identity, TileData, TileKind, XorShift64};

fn who(n: u8) -> Identity {
    Identity::new_from_array([n; 32])
}

fn carried(owner: u8) -> TileData {
    TileData {
        tile_type: TileKind::Player,
        tile_level: 3,
        tile_owner: who(owner),
        tile_xp: 4,
        tile_damage: 5,
        tile_defence: 2,
        tile_armor: 1,
        tile_max_armor: 2,
        tile_health: 9,
        tile_max_health: 12,
    }
}

fn monster(owner: u8, floor: u32) -> TileData {
    TileData {
        tile_type: TileKind::Enemy,
        tile_level: floor + 1,
        tile_owner: who(owner),
        tile_xp: floor + 1,
        tile_damage: floor + 1,
        tile_defence: floor + 1,
        tile_armor: floor + 1,
        tile_max_armor: floor + 1,
        tile_health: floor + 5,
        tile_max_health: floor + 5,
    }
}

fn chest(kind: TileKind, owner: u8, level: u32) -> TileData {
    TileData { tile_type: kind, tile_level: level, tile_owner: who(owner), ..TileData::default() }
}

fn wall(owner: u8) -> TileData {
    TileData { tile_type: TileKind::ChestGold, tile_owner: who(owner), tile_health: 1, ..TileData::default() }
}

fn full_board_but(free: &[(usize, usize)]) -> GameData {
    let mut game = GameData::default();
    for i in 0..10 {
        for j in 0..10 {
            if !free.contains(&(i, j)) {
                game.set_tile(i, j, wall(200));
            }
        }
    }
    game
}

fn count_kind(game: &GameData, kind: TileKind) -> usize {
    let mut n = 0;
    for i in 0..10 {
        for j in 0..10 {
            if game.data[i][j].tile_type == kind {
                n += 1;
            }
        }
    }
    n
}

#[test]
fn floor_tile_has_floor_plus_five_health() {
    let t = make_floor_tile(TileKind::Enemy, who(1), 3);
    assert_eq!(t, monster(1, 3));
    let s = make_floor_tile(TileKind::Stairs, who(1), 0);
    assert_eq!(s, TileData { tile_type: TileKind::Stairs, ..monster(1, 0) });
}

#[test]
fn chest_tile_has_only_a_level() {
    assert_eq!(make_chest_tile(TileKind::ChestBlue, who(1), 1), chest(TileKind::ChestBlue, 1, 1));
    assert_eq!(make_chest_tile(TileKind::ChestGold, who(2), 7), chest(TileKind::ChestGold, 2, 7));
}

#[test]
fn census_counts_what_is_on_the_board() {
    let mut game = GameData::default();
    game.set_tile(0, 0, monster(1, 0));
    game.set_tile(5, 5, monster(1, 0));
    game.set_tile(2, 3, carried(7));
    game.set_tile(8, 1, carried(7));
    game.set_tile(9, 9, TileData { tile_type: TileKind::Stairs, ..monster(1, 0) });
    let census = game.census(&who(7));
    assert_eq!(census.player, Some((8, 1)));
    assert_eq!(census.num_enemies, 2);
    assert!(census.has_stairs);
    assert_eq!(census.empty_slots.len(), 95);
    assert_eq!(census.empty_slots[0], (0, 1));
    assert_eq!(census.empty_slots[94], (9, 8));
    assert!(!census.empty_slots.contains(&(2, 3)));
    let other = game.census(&who(8));
    assert_eq!(other.player, None);
}

#[test]
fn census_of_the_default_board() {
    let census = GameData::default().census(&who(1));
    assert_eq!(census.player, None);
    assert_eq!(census.num_enemies, 0);
    assert!(!census.has_stairs);
    assert_eq!(census.empty_slots.len(), 100);
    for k in 0..100 {
        assert_eq!(census.empty_slots[k], (k / 10, k % 10));
    }
}

#[test]
fn place_takes_the_drawn_cell_out_of_the_pool() {
    let mut game = GameData::default();
    let mut pool: Vec<(usize, usize)> = vec![(1, 1), (2, 2), (3, 3), (4, 4)];
    let mut rng = XorShift64::new(1);
    // 1082269761 % 4 == 1
    let slot = place(&mut game, &mut pool, &mut rng, monster(1, 0));
    assert_eq!(slot, (2, 2));
    assert_eq!(pool, vec![(1, 1), (3, 3), (4, 4)]);
    assert_eq!(rng.a, 1082269761);
    assert_eq!(game.data[2][2], monster(1, 0));
    assert_eq!(count_kind(&game, TileKind::Enemy), 1);
}

#[test]
fn populate_without_room_only_draws_once() {
    let mut game = GameData::default();
    let mut pool: Vec<(usize, usize)> = Vec::new();
    let mut rng = XorShift64::new(1);
    populate(&mut game, &mut pool, &mut rng, false, false, who(1), 0, 2, 70, true);
    assert_eq!(rng.a, 1082269761);
    assert_eq!(game, GameData::default());
    assert!(pool.is_empty());
}

#[test]
fn spawn_player_on_the_first_floor() {
    let mut game = GameData::default();
    assert_eq!(game.spawn_player(who(1), carried(1), 0), Ok(()));
    assert_eq!(game.data[2][4], carried(1));
    assert_eq!(game.data[6][1], monster(1, 0));
    assert_eq!(game.data[9][4], monster(1, 0));
    assert_eq!(game.data[7][7], monster(1, 0));
    assert_eq!(game.data[6][0], TileData { tile_type: TileKind::Stairs, ..monster(1, 0) });
    assert_eq!(game.data[4][8], chest(TileKind::ChestGold, 1, 1));
    assert_eq!(count_kind(&game, TileKind::Empty), 94);
    assert_eq!(count_kind(&game, TileKind::ChestBlue), 0);
    assert_eq!((game.id_counter, game.action_index), (0, 0));
}

#[test]
fn spawn_player_on_a_deeper_floor_can_add_a_premium_chest() {
    let mut game = GameData::default();
    game.floor_id = 2;
    assert_eq!(game.spawn_player(who(1), carried(1), 0), Ok(()));
    assert_eq!(game.data[2][4], carried(1));
    assert_eq!(game.data[6][1], monster(1, 2));
    assert_eq!(game.data[9][4], monster(1, 2));
    assert_eq!(game.data[7][7], monster(1, 2));
    assert_eq!(game.data[6][0], TileData { tile_type: TileKind::Stairs, ..monster(1, 2) });
    assert_eq!(game.data[4][8], chest(TileKind::ChestGold, 1, 3));
    assert_eq!(game.data[6][7], chest(TileKind::ChestBlue, 1, 1));
    assert_eq!(count_kind(&game, TileKind::Empty), 93);
}

#[test]
fn spawn_player_seed_moves_everything() {
    let mut game = GameData::default();
    game.floor_id = 3;
    assert_eq!(game.spawn_player(who(1), carried(1), 7), Ok(()));
    assert_eq!(game.data[9][5], carried(1));
    assert_eq!(game.data[3][3], monster(1, 3));
    assert_eq!(game.data[3][8], monster(1, 3));
    assert_eq!(game.data[1][9], monster(1, 3));
    assert_eq!(game.data[5][4].tile_type, TileKind::Stairs);
    assert_eq!(game.data[2][8], chest(TileKind::ChestGold, 1, 4));
    assert_eq!(game.data[7][0], chest(TileKind::ChestBlue, 1, 1));
    assert_eq!(count_kind(&game, TileKind::Empty), 93);
}

#[test]
fn spawn_player_low_draw_gives_no_premium_chest() {
    let mut game = GameData::default();
    game.floor_id = 3;
    assert_eq!(game.spawn_player(who(1), carried(1), 1), Ok(()));
    assert_eq!(game.data[4][1], carried(1));
    assert_eq!(game.data[4][2], monster(1, 3));
    assert_eq!(game.data[2][7], monster(1, 3));
    assert_eq!(game.data[7][7], monster(1, 3));
    assert_eq!(game.data[3][1].tile_type, TileKind::Stairs);
    assert_eq!(game.data[7][6], chest(TileKind::ChestGold, 1, 4));
    assert_eq!(count_kind(&game, TileKind::ChestBlue), 0);
    assert_eq!(count_kind(&game, TileKind::Empty), 94);
}

#[test]
fn spawn_player_with_two_free_cells() {
    let mut game = full_board_but(&[(4, 4), (9, 9)]);
    game.floor_id = 1;
    assert_eq!(game.spawn_player(who(1), carried(1), 5), Ok(()));
    assert_eq!(game.data[9][9], carried(1));
    assert_eq!(game.data[4][4], monster(1, 1));
    assert_eq!(count_kind(&game, TileKind::Empty), 0);
    assert_eq!(count_kind(&game, TileKind::Stairs), 0);
    assert_eq!(count_kind(&game, TileKind::ChestGold), 98);
}

#[test]
fn spawn_player_with_one_free_cell() {
    let mut game = full_board_but(&[(4, 4)]);
    game.floor_id = 1;
    assert_eq!(game.spawn_player(who(1), carried(1), 5), Ok(()));
    assert_eq!(game.data[4][4], carried(1));
    assert_eq!(count_kind(&game, TileKind::ChestGold), 99);
}

#[test]
fn spawn_player_on_a_crowded_board_adds_no_monsters() {
    let mut game = full_board_but(&[(4, 4), (9, 9)]);
    for k in 0..6 {
        game.set_tile(0, k, monster(9, 0));
    }
    game.floor_id = 1;
    assert_eq!(game.spawn_player(who(1), carried(1), 5), Ok(()));
    assert_eq!(game.data[9][9], carried(1));
    assert_eq!(game.data[4][4], TileData { tile_type: TileKind::Stairs, ..monster(1, 1) });
    assert_eq!(count_kind(&game, TileKind::Enemy), 6);
}

#[test]
fn spawn_player_on_a_board_with_stairs_adds_none() {
    let mut game = full_board_but(&[(4, 4), (5, 5), (9, 9)]);
    for k in 0..7 {
        game.set_tile(0, k, monster(9, 0));
    }
    game.set_tile(1, 0, TileData { tile_type: TileKind::Stairs, ..monster(9, 0) });
    game.floor_id = 1;
    assert_eq!(game.spawn_player(who(1), carried(1), 5), Ok(()));
    assert_eq!(game.data[4][4], carried(1));
    assert_eq!(game.data[5][5], chest(TileKind::ChestGold, 1, 2));
    assert_eq!(game.data[9][9], chest(TileKind::ChestBlue, 1, 1));
    assert_eq!(count_kind(&game, TileKind::Enemy), 7);
    assert_eq!(count_kind(&game, TileKind::Stairs), 1);
}

#[test]
fn populate_follows_its_policy() {
    let mut game = GameData::default();
    let mut pool: Vec<(usize, usize)> = vec![(1, 1), (2, 2), (3, 3)];
    let mut rng = XorShift64::new(1);
    populate(&mut game, &mut pool, &mut rng, false, true, who(1), 0, 5, 99, true);
    assert!(pool.is_empty());
    assert_eq!(count_kind(&game, TileKind::Enemy), 3);
    let mut other = GameData::default();
    let mut pool: Vec<(usize, usize)> = vec![(1, 1), (2, 2), (3, 3)];
    let mut rng = XorShift64::new(1);
    populate(&mut other, &mut pool, &mut rng, true, true, who(1), 6, 5, 99, true);
    assert_eq!(pool.len(), 2);
    assert_eq!(count_kind(&other, TileKind::Enemy), 0);
    // 1082269761 % 3 == 0
    assert_eq!(other.data[1][1], chest(TileKind::ChestGold, 1, 7));
    assert_eq!(pool, vec![(2, 2), (3, 3)]);
}

#[test]
fn spawn_player_refuses_a_player_who_is_present() {
    let mut game = GameData::default();
    game.set_tile(3, 3, carried(1));
    game.add_new_game_action(tufia::GameAction::default());
    let before = game;
    assert_eq!(game.spawn_player(who(1), carried(1), 0), Err(GameErrorCode::PlayerAlreadyExists));
    assert_eq!(game, before);
}

#[test]
fn spawn_player_refuses_on_a_full_board() {
    let mut game = full_board_but(&[]);
    let before = game;
    assert_eq!(game.spawn_player(who(1), carried(1), 0), Err(GameErrorCode::BoardIsFull));
    assert_eq!(game, before);
}

#[test]
fn spawn_player_present_on_a_full_board_is_refused_as_present() {
    let mut game = full_board_but(&[]);
    game.set_tile(0, 0, carried(1));
    assert_eq!(game.spawn_player(who(1), carried(1), 0), Err(GameErrorCode::PlayerAlreadyExists));
}

#[test]
fn spawn_player_never_lands_on_an_occupied_cell() {
    for slot in 0..50u64 {
        let mut game = GameData::default();
        game.floor_id = 1;
        for k in 0..40usize {
            game.set_tile(k / 10 * 2, k % 10, wall(200));
        }
        assert_eq!(game.spawn_player(who(1), carried(1), slot), Ok(()));
        assert_eq!(count_kind(&game, TileKind::Player), 1);
        assert_eq!(count_kind(&game, TileKind::Stairs), 1);
        let walls = (0..40usize).filter(|k| game.data[k / 10 * 2][k % 10] == wall(200)).count();
        assert_eq!(walls, 40);
        assert_eq!(count_kind(&game, TileKind::Enemy), 3);
        assert_eq!(count_kind(&game, TileKind::ChestGold), 41);
    }
}
