use tufia::instructions::{buy_next_floor, check_authority, init_player, move_to_tile, next_floor, reset_floor};
use tufia::{GameAction, GameData, GameErrorCode, Identity, PlayerData, TileData, TileKind};

fn who(n: u8) -> Identity {
    Identity::new_from_array([n; 32])
}

fn blank_record() -> PlayerData {
    PlayerData {
        authority: Identity::default(),
        name: String::from("nobody"),
        level: 0,
        xp: 0,
        health: 0,
        max_health: 0,
        damage: 0,
        defence: 0,
        swords: 0,
        shields: 0,
        energy: 0,
        last_login: 0,
        last_id: 0,
        current_floor: 0,
        tile_data: TileData::default().snapshot(),
    }
}

fn started(owner: u8, now: i64) -> PlayerData {
    let mut p = blank_record();
    assert!(init_player(&mut p, who(owner), now).is_ok());
    p
}

fn count_kind(game: &GameData, kind: TileKind) -> usize {
    let mut n = 0;
    for i in 0..10 {
        for j in 0..10 {
            if game.data[i][j].tile_type == kind {
                n += 1;
            }
        }
    }
    n
}

#[test]
fn init_player_sets_the_starting_stats() {
    let p = started(3, 1234);
    assert_eq!(p.authority, who(3));
    assert_eq!((p.energy, p.health, p.max_health, p.level, p.damage), (10, 10, 10, 1, 1));
    assert_eq!(p.last_login, 1234);
    assert_eq!((p.xp, p.defence, p.swords, p.shields, p.last_id, p.current_floor), (0, 0, 0, 0, 0, 0));
    assert_eq!(p.name, "nobody");
}

#[test]
fn check_authority_accepts_the_owner_only() {
    let p = started(3, 0);
    assert_eq!(check_authority(&p, &who(3)), Ok(()));
    assert_eq!(check_authority(&p, &who(4)), Err(GameErrorCode::WrongAuthority));
    assert_eq!(check_authority(&p, &Identity::default()), Err(GameErrorCode::WrongAuthority));
}

#[test]
fn request_without_energy_is_refused_and_changes_nothing() {
    let mut p = started(1, 1000);
    p.energy = 0;
    let mut game = GameData::default();
    let before = (p.clone(), game);
    assert_eq!(move_to_tile(&mut p, &mut game, 7, 1, 1, 1000 + 599), Err(GameErrorCode::NotEnoughEnergy));
    assert_eq!((p, game), before);
}

#[test]
fn request_after_a_refill_is_played() {
    let mut p = started(1, 1000);
    p.energy = 0;
    let mut game = GameData::default();
    assert_eq!(move_to_tile(&mut p, &mut game, 7, 1, 1, 1000 + 650), Ok(()));
    assert_eq!(p.energy, 1);
    assert_eq!(p.last_login, 1600);
    assert_eq!(p.last_id, 7);
    assert_eq!(count_kind(&game, TileKind::Player), 1);
}

#[test]
fn request_refused_by_the_board_changes_nothing() {
    let mut p = started(1, 1000);
    p.energy = 3;
    let mut game = GameData::default();
    let before = (p.clone(), game);
    assert_eq!(move_to_tile(&mut p, &mut game, 7, 10, 1, 5000), Err(GameErrorCode::OutOfBounds));
    assert_eq!((p, game), before);
}

#[test]
fn first_request_enters_and_the_next_one_moves() {
    let mut p = started(1, 0);
    let mut game = GameData::default();
    assert_eq!(move_to_tile(&mut p, &mut game, 1, 4, 7, 0), Ok(()));
    assert_eq!(game.data[4][6].tile_type, TileKind::Player);
    assert_eq!(game.data[4][6].tile_owner, who(1));
    assert_eq!(p.tile_data, game.data[4][6].snapshot());
    assert_eq!(move_to_tile(&mut p, &mut game, 2, 4, 7, 0), Ok(()));
    assert_eq!(game.data[4][7].tile_type, TileKind::Player);
    assert_eq!(game.data[4][6].tile_type, TileKind::Empty);
    assert_eq!(game.data[4][6].tile_owner, Identity::default());
    assert_eq!(count_kind(&game, TileKind::Player), 1);
    assert_eq!(p.last_id, 2);
    assert_eq!(p.energy, 10);
    assert_eq!(game.id_counter, 2);
    assert_eq!(move_to_tile(&mut p, &mut game, 3, 4, 7, 0), Err(GameErrorCode::PlayerIsAlreadyOnThisTile));
    assert_eq!(p.last_id, 2);
}

#[test]
fn next_floor_removes_the_player_and_goes_down() {
    let mut p = started(1, 0);
    let mut game = GameData::default();
    assert_eq!(move_to_tile(&mut p, &mut game, 1, 0, 0, 0), Ok(()));
    let before = game;
    assert_eq!(next_floor(&mut p, &mut game, who(1), 9), Ok(()));
    assert_eq!(p.current_floor, 1);
    assert_eq!(p.last_id, 9);
    assert_eq!(game.find_player(who(1)), TileData::default());
    assert_eq!(game.data[4][6].tile_type, TileKind::Empty);
    assert_eq!(game.data[4][6].tile_owner, Identity::default());
    assert_eq!(game.data[1][2], before.data[1][2]);
    assert_eq!(game.game_actions, before.game_actions);
    assert_eq!(game.id_counter, before.id_counter);
}

#[test]
fn reset_floor_blanks_the_board() {
    let mut p = started(1, 0);
    let mut game = GameData::default();
    assert_eq!(move_to_tile(&mut p, &mut game, 1, 0, 0, 0), Ok(()));
    let kept = p.clone();
    assert_eq!(reset_floor(&mut p, &mut game, 4), Ok(()));
    assert_eq!(count_kind(&game, TileKind::Empty), 100);
    assert_eq!(game.game_actions, [GameAction::default(); 20]);
    assert_eq!((game.id_counter, game.action_index), (0, 0));
    assert_eq!(p, PlayerData { last_id: 4, ..kept });
    assert_eq!(game.find_player(who(1)), TileData::default());
}

#[test]
fn buy_next_floor_spawns_the_carried_tile() {
    let mut p = started(1, 0);
    let mut first = GameData::default();
    assert_eq!(move_to_tile(&mut p, &mut first, 1, 0, 0, 0), Ok(()));
    let carried = first.data[4][6];
    let mut second = GameData::default();
    second.floor_id = 2;
    assert_eq!(buy_next_floor(&mut p, &mut second, who(1), 5, Some(0)), Ok(()));
    assert_eq!(second.owner, who(1));
    assert_eq!(second.data[2][4], carried);
    assert_eq!(second.data[6][1].tile_type, TileKind::Enemy);
    assert_eq!(second.data[6][1].tile_health, 7);
    assert_eq!(second.data[6][0].tile_type, TileKind::Stairs);
    assert_eq!(second.data[4][8].tile_type, TileKind::ChestGold);
    assert_eq!(second.data[4][8].tile_level, 3);
    assert_eq!(second.data[6][7].tile_type, TileKind::ChestBlue);
    assert_eq!(p.last_id, 5);
}

#[test]
fn buy_next_floor_succeeds_even_if_the_spawn_is_refused() {
    let mut p = started(1, 0);
    let mut game = GameData::default();
    assert_eq!(move_to_tile(&mut p, &mut game, 1, 0, 0, 0), Ok(()));
    let before = game;
    assert_eq!(buy_next_floor(&mut p, &mut game, who(1), 5, Some(0)), Ok(()));
    assert_eq!(game, GameData { owner: who(1), ..before });
    assert_eq!(p.last_id, 5);
}

#[test]
fn buy_next_floor_without_a_clock_reading_spawns_nobody() {
    let mut p = started(1, 0);
    let mut game = GameData::default();
    game.floor_id = 1;
    assert_eq!(buy_next_floor(&mut p, &mut game, who(1), 5, None), Ok(()));
    assert_eq!(game, GameData { owner: who(1), floor_id: 1, ..GameData::default() });
    assert_eq!(p.last_id, 5);
}
