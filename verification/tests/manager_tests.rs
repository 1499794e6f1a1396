use scrabble::manager::Manager;
use scrabble::player::Player;
use scrabble::Error;

fn create_player(player_id: u128) -> Player {
    let player_name = format!("Player_{player_id}");

    Player::new(player_id, &player_name)
}

#[test]
fn game_is_added_on_creation() {
    let mut manager = Manager::new();

    assert_eq!(manager.game_map.len(), 0);

    let _game = manager.create_game();

    assert_eq!(manager.game_map.len(), 1);
}

#[test]
#[allow(non_snake_case)]
fn register_player_to_game__good_id() {
    let mut manager = Manager::new();

    let game_uuid = manager.create_game();
    let player = create_player(1);

    let result = manager.register_player_to_game(game_uuid, player.clone());
    assert!(result.is_ok());
    assert_eq!(player, result.unwrap());
    assert_eq!(manager.get_players_for_game(game_uuid), vec![player]);
}

#[test]
#[allow(non_snake_case)]
fn register_player_to_game__bad_id() {
    let mut manager = Manager::new();

    let game_uuid = manager.create_game();
    let player = create_player(1);
    let random_id = game_uuid.wrapping_add(1);

    let result = manager.register_player_to_game(random_id, player.clone());
    assert!(result.is_err());
    assert_eq!(result.unwrap_err(), Error::GameNotFound);
    assert_eq!(manager.get_players_for_game(game_uuid), vec![]);
}

#[test]
#[allow(non_snake_case)]
fn register_player_to_game__no_games() {
    let mut manager = Manager::new();

    let player = create_player(1);
    let random_id = 42;

    let result = manager.register_player_to_game(random_id, player.clone());
    assert!(result.is_err());
    assert_eq!(result.unwrap_err(), Error::GameNotFound);
}

#[test]
#[allow(non_snake_case)]
fn remove_player_from_game__good_id() {
    let mut manager = Manager::new();

    let game_uuid = manager.create_game();
    let player = create_player(1);

    manager
        .register_player_to_game(game_uuid, player.clone())
        .unwrap();
    let result = manager.remove_player_from_game(game_uuid, player.get_id());
    assert!(result.is_ok());
    assert_eq!(manager.get_players_for_game(game_uuid), vec![]);
}

#[test]
#[allow(non_snake_case)]
fn remove_player_from_game__bad_ids() {
    {
        let mut manager = Manager::new();

        let game_uuid = manager.create_game();
        let player = create_player(1);
        let random_id = game_uuid.wrapping_add(1);

        manager
            .register_player_to_game(game_uuid, player.clone())
            .unwrap();
        let result = manager.remove_player_from_game(random_id, player.get_id());
        assert!(result.is_err());
        assert_eq!(result.unwrap_err(), Error::GameNotFound);
        assert_eq!(manager.get_players_for_game(game_uuid), vec![player]);
    }

    {
        let mut manager = Manager::new();

        let game_uuid = manager.create_game();
        let player = create_player(1);
        let random_id = player.get_id().wrapping_add(99);

        manager
            .register_player_to_game(game_uuid, player.clone())
            .unwrap();
        let result = manager.remove_player_from_game(game_uuid, random_id);
        assert!(result.is_err());
        assert_eq!(result.unwrap_err(), Error::PlayerNotRegistered);
        assert_eq!(manager.get_players_for_game(game_uuid), vec![player]);
    }

    {
        let mut manager = Manager::new();

        let game_uuid = manager.create_game();
        let player = create_player(1);
        let random_id = game_uuid.wrapping_add(1);

        manager
            .register_player_to_game(game_uuid, player.clone())
            .unwrap();
        let result = manager.remove_player_from_game(random_id, random_id);
        assert!(result.is_err());
        assert_eq!(result.unwrap_err(), Error::GameNotFound);
        assert_eq!(manager.get_players_for_game(game_uuid), vec![player]);
    }
}

#[test]
#[allow(non_snake_case)]
fn player_from_uuid__good_id() {
    let mut manager = Manager::new();

    let game_uuid = manager.create_game();
    let player = create_player(1);

    manager
        .register_player_to_game(game_uuid, player.clone())
        .unwrap();
    let result = manager.player_from_uuid(player.get_id());
    assert!(result.is_ok());
    assert_eq!(player, result.unwrap());
}

#[test]
#[allow(non_snake_case)]
fn player_from_uuid__bad_id() {
    let mut manager = Manager::new();

    let game_uuid = manager.create_game();
    let player = create_player(1);
    let random_id = player.get_id().wrapping_add(99);

    manager
        .register_player_to_game(game_uuid, player.clone())
        .unwrap();
    let result = manager.player_from_uuid(random_id);
    assert!(result.is_err());
    assert_eq!(result.unwrap_err(), Error::PlayerNotRegistered);
}

#[test]
#[allow(non_snake_case)]
fn get_players_for_game__good_id() {
    let mut manager = Manager::new();

    let game_uuid = manager.create_game();
    let player = create_player(1);

    manager
        .register_player_to_game(game_uuid, player.clone())
        .unwrap();
    let result = manager.get_players_for_game(game_uuid);

    assert_eq!(result.len(), 1);
    assert_eq!(result, vec![player]);
}

#[test]
#[allow(non_snake_case)]
fn get_players_for_game__bad_id() {
    let mut manager = Manager::new();

    let game_uuid = manager.create_game();
    let player = create_player(1);
    let random_id = game_uuid.wrapping_add(1);

    manager
        .register_player_to_game(game_uuid, player.clone())
        .unwrap();
    let result = manager.get_players_for_game(random_id);

    assert_eq!(result.len(), 0);
}

#[test]
#[allow(non_snake_case)]
fn start_game__good_id() {
    let mut manager = Manager::new();

    let game_uuid = manager.create_game();

    let player_1 = create_player(1);
    let player_2 = create_player(2);

    manager
        .register_player_to_game(game_uuid, player_1.clone())
        .unwrap();
    manager
        .register_player_to_game(game_uuid, player_2.clone())
        .unwrap();
    let result = manager.start_game(game_uuid);

    assert!(result.is_ok());

    let map = result.unwrap();
    assert_eq!(map.len(), 2);
    assert_eq!(map.get(&player_1.get_id()).unwrap().len(), 7);
    assert_eq!(map.get(&player_2.get_id()).unwrap().len(), 7);
}

#[test]
#[allow(non_snake_case)]
fn start_game__not_enough_players() {
    {
        let mut manager = Manager::new();
        let game_uuid = manager.create_game();

        let result = manager.start_game(game_uuid);

        assert!(result.is_err());
        assert_eq!(result.unwrap_err(), Error::NotEnoughPlayers);
    }

    {
        let mut manager = Manager::new();
        let game_uuid = manager.create_game();

        let player = create_player(1);

        manager
            .register_player_to_game(game_uuid, player.clone())
            .unwrap();
        let result = manager.start_game(game_uuid);

        assert!(result.is_err());
        assert_eq!(result.unwrap_err(), Error::NotEnoughPlayers);
    }
}

#[test]
#[allow(non_snake_case)]
fn start_game__bad_id() {
    let mut manager = Manager::new();

    let game_uuid = manager.create_game();

    let player_1 = create_player(1);
    let player_2 = create_player(2);

    manager
        .register_player_to_game(game_uuid, player_1.clone())
        .unwrap();
    manager
        .register_player_to_game(game_uuid, player_2.clone())
        .unwrap();

    let random_uuid = game_uuid.wrapping_add(1);
    let result = manager.start_game(random_uuid);

    assert!(result.is_err());
    assert_eq!(result.unwrap_err(), Error::GameNotFound);
}
