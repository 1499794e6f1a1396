use scrabble::events::{
    handle_events, handle_id_request, handle_list_games_request, handle_logout_request,
    handle_player_list_request, handle_registration_request, handle_start_game_request, Event,
    GameEvent, GameRequest, LobbyEvent, LobbyRequest, ReplyData,
};
use scrabble::game::Game;
use scrabble::manager::Manager;
use scrabble::player::Player;
use scrabble::response::Response;
use scrabble::{Error, Tile};

fn join(manager: &mut Manager, game_uuid: u128, player: Player) -> scrabble::events::Outcome {
    handle_events(
        Event::Game(GameEvent::Registration { game_uuid, player }),
        manager,
    )
}

#[test]
fn scenario_join_list_start_and_alternate_turns() {
    let mut manager = Manager::new();
    let game_uuid = manager.create_game();

    let a = Player::new(10, "A");
    let b = Player::new(11, "B");

    let out_a = join(&mut manager, game_uuid, a.clone());
    match out_a.ack.unwrap().data.unwrap() {
        ReplyData::Player(p) => assert_eq!(p, a),
        _ => panic!("expected a player payload"),
    }
    assert_eq!(out_a.roster_push.unwrap(), vec![a.clone()]);

    let out_b = join(&mut manager, game_uuid, b.clone());
    assert_eq!(out_b.roster_push.unwrap(), vec![a.clone(), b.clone()]);

    // listPlayers returns [A, B] in join order
    let out_list = handle_events(Event::Game(GameEvent::PlayerList { game_uuid }), &mut manager);
    match out_list.ack.unwrap().data.unwrap() {
        ReplyData::Players(v) => assert_eq!(v, vec![a.clone(), b.clone()]),
        _ => panic!("expected a players payload"),
    }

    // start succeeds: racks of size 7 for A and B, bag down to 98 - 14 = 84
    let out_start = handle_events(Event::Game(GameEvent::StartGame { game_uuid }), &mut manager);
    match out_start.ack.unwrap().data.unwrap() {
        ReplyData::Message(m) => assert_eq!(m, "Game started"),
        _ => panic!("expected a message payload"),
    }
    let deals = out_start.deals.unwrap();
    assert_eq!(deals.len(), 2);
    assert_eq!(deals.get(&10).unwrap().len(), 7);
    assert_eq!(deals.get(&11).unwrap().len(), 7);
    assert_eq!(manager.game_map.get(&game_uuid).unwrap().tile_bag.len(), 84);

    // nextTurn alternates 1, 0, 1, 0, ...
    let game = manager.game_map.get_mut(&game_uuid).unwrap();
    assert_eq!(game.next_turn(), 1);
    assert_eq!(game.next_turn(), 0);
    assert_eq!(game.next_turn(), 1);
    assert_eq!(game.next_turn(), 0);
}

#[test]
fn scenario_resolve_player_unknown_and_stale() {
    let mut manager = Manager::new();

    // an id never registered anywhere
    assert_eq!(
        manager.player_from_uuid(12345).unwrap_err(),
        Error::PlayerNotRegistered
    );

    // an id whose session was since removed
    let game_uuid = manager.create_game();
    let player = Player::new(7, "Ghost");
    manager
        .register_player_to_game(game_uuid, player.clone())
        .unwrap();
    manager.remove_game(game_uuid).unwrap();
    assert_eq!(
        manager.player_from_uuid(7).unwrap_err(),
        Error::GameNotFound
    );
}

#[test]
fn scenario_fourth_and_fifth_join_race() {
    let mut manager = Manager::new();
    let game_uuid = manager.create_game();

    for id in 1..=3u128 {
        let player = Player::new(id, "Early");
        assert!(manager
            .register_player_to_game(game_uuid, player)
            .is_ok());
    }

    // two queued join requests for the 4th and 5th seat: the coordinator
    // serializes them, so exactly one succeeds
    let out_fourth = join(&mut manager, game_uuid, Player::new(4, "Fourth"));
    let out_fifth = join(&mut manager, game_uuid, Player::new(5, "Fifth"));

    assert!(out_fourth.ack.unwrap().error.is_none());
    assert_eq!(
        out_fifth.ack.unwrap().error.unwrap(),
        Error::TooManyPlayers
    );
    assert_eq!(manager.get_players_for_game(game_uuid).len(), 4);
    // even the rejected join sees the broadcast of the final roster
    assert_eq!(out_fifth.roster_push.unwrap().len(), 4);
}

#[test]
fn logout_broadcasts_updated_roster() {
    let mut manager = Manager::new();
    let game_uuid = manager.create_game();
    let a = Player::new(1, "A");
    let b = Player::new(2, "B");
    join(&mut manager, game_uuid, a.clone());
    join(&mut manager, game_uuid, b.clone());

    let out = handle_events(
        Event::Game(GameEvent::Logout { game_uuid, player_uuid: 1 }),
        &mut manager,
    );
    match out.ack.unwrap().data.unwrap() {
        ReplyData::Message(m) => assert_eq!(m, "Player successfully removed"),
        _ => panic!("expected a message payload"),
    }
    assert_eq!(out.roster_push.unwrap(), vec![b]);

    // logging out someone unknown is an error and pushes nothing
    let out_bad = handle_events(
        Event::Game(GameEvent::Logout { game_uuid, player_uuid: 1 }),
        &mut manager,
    );
    assert_eq!(out_bad.ack.unwrap().error.unwrap(), Error::PlayerNotRegistered);
    assert!(out_bad.roster_push.is_none());
}

#[test]
fn whoami_resolves_registered_player() {
    let mut manager = Manager::new();
    let game_uuid = manager.create_game();
    let a = Player::new(21, "Resolved");
    join(&mut manager, game_uuid, a.clone());

    let out = handle_events(Event::Game(GameEvent::WhoAmI { player_uuid: 21 }), &mut manager);
    match out.ack.unwrap().data.unwrap() {
        ReplyData::Player(p) => assert_eq!(p, a),
        _ => panic!("expected a player payload"),
    }

    let out_unknown =
        handle_events(Event::Game(GameEvent::WhoAmI { player_uuid: 99 }), &mut manager);
    assert_eq!(
        out_unknown.ack.unwrap().error.unwrap(),
        Error::PlayerNotRegistered
    );
}

#[test]
fn list_games_returns_every_session_once() {
    let mut manager = Manager::new();
    let g1 = manager.create_game();
    let g2 = manager.create_game();
    assert_ne!(g1, g2);

    let out = handle_events(Event::Lobby(LobbyEvent::ListGames), &mut manager);
    match out.ack.unwrap().data.unwrap() {
        ReplyData::Games(mut v) => {
            v.sort();
            let mut expected = vec![g1, g2];
            expected.sort();
            assert_eq!(v, expected);
        },
        _ => panic!("expected a games payload"),
    }
}

#[test]
fn registration_request_mints_player_once() {
    let req = GameRequest::Register { game_uuid: 5, username: String::from("Ada") };
    let (player, event) = handle_registration_request(req, false).unwrap();
    assert_eq!(player.get_name(), "Ada");
    assert_eq!(player.get_number_of_tiles(), 0);
    match event {
        Event::Game(GameEvent::Registration { game_uuid, player: in_event }) => {
            assert_eq!(game_uuid, 5);
            assert_eq!(in_event, player);
        },
        _ => panic!("expected a registration event"),
    }

    // a connection already associated with a player registers nothing
    let req_again = GameRequest::Register { game_uuid: 5, username: String::from("Ada") };
    assert!(handle_registration_request(req_again, true).is_none());
    // a non-register request registers nothing
    assert!(handle_registration_request(GameRequest::Start, false).is_none());
}

#[test]
fn request_handlers_gate_by_association() {
    assert_eq!(
        handle_logout_request(GameRequest::Logout { game_uuid: 3, player_uuid: 9 }, true),
        Some(Event::Game(GameEvent::Logout { game_uuid: 3, player_uuid: 9 }))
    );
    assert_eq!(
        handle_logout_request(GameRequest::Logout { game_uuid: 3, player_uuid: 9 }, false),
        None
    );
    assert_eq!(
        handle_id_request(GameRequest::Id { player_uuid: 9 }, false),
        Some(Event::Game(GameEvent::WhoAmI { player_uuid: 9 }))
    );
    assert_eq!(handle_id_request(GameRequest::Id { player_uuid: 9 }, true), None);
    assert_eq!(
        handle_player_list_request(GameRequest::PlayerList, 3),
        Some(Event::Game(GameEvent::PlayerList { game_uuid: 3 }))
    );
    assert_eq!(handle_player_list_request(GameRequest::Start, 3), None);
    assert_eq!(
        handle_start_game_request(GameRequest::Start, 3),
        Some(Event::Game(GameEvent::StartGame { game_uuid: 3 }))
    );
    assert_eq!(
        handle_list_games_request(LobbyRequest::ListGames),
        Some(Event::Lobby(LobbyEvent::ListGames))
    );
}

#[test]
fn tile_bag_holds_the_standard_distribution() {
    let game = Game::new();
    let count_of = |letter: char| game.tile_bag.iter().filter(|t| t.0 == letter).count();
    assert_eq!(count_of('A'), 9);
    assert_eq!(count_of('E'), 12);
    assert_eq!(count_of('Q'), 1);
    assert_eq!(count_of('Z'), 1);
    let e_value = game.tile_bag.iter().find(|t| t.0 == 'E').unwrap().1;
    assert_eq!(e_value, 1);
    let q_value = game.tile_bag.iter().find(|t| t.0 == 'Q').unwrap().1;
    assert_eq!(q_value, 10);
}

#[test]
fn conservation_holds_through_start_and_draws() {
    // a single draw moves one tile from the bag to a rack
    let mut game = Game::new();
    game.register_player(Player::new(1, "A")).unwrap();
    game.register_player(Player::new(2, "B")).unwrap();
    game.give_tile(1).unwrap();
    let held: usize = game
        .players
        .iter()
        .map(|p| p.get_number_of_tiles())
        .sum();
    assert_eq!(held, 1);
    assert_eq!(game.tile_bag.len() + held, 98);

    // the deal moves 14 tiles from the bag to the racks
    let mut game = Game::new();
    game.register_player(Player::new(1, "A")).unwrap();
    game.register_player(Player::new(2, "B")).unwrap();
    game.start().unwrap();
    let held: usize = game
        .players
        .iter()
        .map(|p| p.get_number_of_tiles())
        .sum();
    assert_eq!(held, 14);
    assert_eq!(game.tile_bag.len() + held, 98);

    // a draw into a full rack moves nothing and loses nothing
    assert_eq!(game.give_tile(1).unwrap_err(), Error::PlayerHas7Tiles);
    let held_after: usize = game
        .players
        .iter()
        .map(|p| p.get_number_of_tiles())
        .sum();
    assert_eq!(held_after, 14);
    assert_eq!(game.tile_bag.len() + held_after, 98);
}

#[test]
fn starting_twice_is_rejected_without_partial_deal() {
    let mut game = Game::new();
    game.register_player(Player::new(1, "A")).unwrap();
    game.register_player(Player::new(2, "B")).unwrap();
    game.start().unwrap();
    let bag_before = game.tile_bag.len();

    assert_eq!(game.start().unwrap_err(), Error::PlayerHas7Tiles);
    assert_eq!(game.tile_bag.len(), bag_before);
    assert_eq!(game.get_player(1).unwrap().get_number_of_tiles(), 7);
}

#[test]
fn turn_cursor_cycles_for_each_roster_size() {
    for k in 2..=4u128 {
        let mut game = Game::new();
        for id in 0..k {
            game.register_player(Player::new(id, "P")).unwrap();
        }
        let start_index = game.current_player_index;
        for _ in 0..k {
            game.next_turn();
        }
        assert_eq!(game.current_player_index, start_index);
    }
}

#[test]
fn give_tile_reports_an_empty_bag() {
    let mut game = Game::new();
    game.register_player(Player::new(1, "Dry")).unwrap();
    game.tile_bag.clear();
    assert_eq!(game.give_tile(1).unwrap_err(), Error::NoMoreTiles);
}

#[test]
fn failed_start_is_answered_with_the_error() {
    let mut manager = Manager::new();
    let game_uuid = manager.create_game();
    join(&mut manager, game_uuid, Player::new(1, "Lonely"));

    // too few players: the requester still gets a reply, with the error
    let out = handle_events(Event::Game(GameEvent::StartGame { game_uuid }), &mut manager);
    assert!(out.deals.is_none());
    assert_eq!(out.ack.unwrap().error.unwrap(), Error::NotEnoughPlayers);

    // unknown session: likewise
    let out_bad = handle_events(
        Event::Game(GameEvent::StartGame { game_uuid: game_uuid.wrapping_add(1) }),
        &mut manager,
    );
    assert!(out_bad.deals.is_none());
    assert_eq!(out_bad.ack.unwrap().error.unwrap(), Error::GameNotFound);
}

#[test]
fn dealt_rack_map_names_only_roster_players() {
    let mut manager = Manager::new();
    let game_uuid = manager.create_game();
    manager
        .register_player_to_game(game_uuid, Player::new(1, "A"))
        .unwrap();
    manager
        .register_player_to_game(game_uuid, Player::new(2, "B"))
        .unwrap();

    let racks = manager.start_game(game_uuid).unwrap();
    assert_eq!(racks.len(), 2);
    let mut keys: Vec<u128> = racks.keys().copied().collect();
    keys.sort();
    assert_eq!(keys, vec![1, 2]);
}

#[test]
fn full_rack_rejects_an_eighth_tile() {
    let mut player = Player::new(1, "Full");
    for _ in 0..7 {
        player.add_tile(Tile('A', 1)).unwrap();
    }
    assert_eq!(player.add_tile(Tile('B', 3)).unwrap_err(), Error::PlayerHas7Tiles);
    assert_eq!(player.get_number_of_tiles(), 7);
}

#[test]
fn duplicate_registration_keeps_the_first_entry() {
    let mut game = Game::new();
    game.register_player(Player::new(1, "First")).unwrap();
    let result = game.register_player(Player::new(1, "Second"));
    assert_eq!(result.unwrap_err(), Error::DuplicatePlayerId);
    assert_eq!(game.get_player(1).unwrap().get_name(), "First");
    assert_eq!(game.players.len(), 1);
}

#[test]
fn response_envelopes_are_mutually_exclusive() {
    let ok: Response<u32> = Response::from_data(17);
    assert_eq!(ok.data, Some(17));
    assert!(ok.error.is_none());

    let bad: Response<u32> = Response::from_error(Error::NoMoreTiles);
    assert!(bad.data.is_none());
    assert_eq!(bad.error, Some(Error::NoMoreTiles));
}

#[test]
fn error_messages_match_the_wire_format() {
    assert_eq!(Error::NotEnoughPlayers.message(), "Not enough players");
    assert_eq!(Error::TooManyPlayers.message(), "Too many players");
    assert_eq!(Error::DuplicatePlayerId.message(), "Duplicate player UUID");
    assert_eq!(
        Error::PlayerNotRegistered.message(),
        "Player is not registered in this game"
    );
    assert_eq!(Error::NoMoreTiles.message(), "No more tiles in the bag");
    assert_eq!(Error::PlayerHas7Tiles.message(), "Player already has 7 tiles");
    assert_eq!(Error::GameNotFound.message(), "Game not found with this UUID");
}

#[test]
fn created_games_get_distinct_tokens() {
    let mut manager = Manager::new();
    let mut tokens = Vec::new();
    for _ in 0..8 {
        tokens.push(manager.create_game());
    }
    for i in 0..tokens.len() {
        for j in (i + 1)..tokens.len() {
            assert_ne!(tokens[i], tokens[j]);
        }
    }
}
