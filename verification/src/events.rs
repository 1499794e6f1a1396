//! The request types a connection handler may submit, and the single-writer
//! coordinator step that applies one event to the registry and says exactly
//! what must be replied, broadcast and privately pushed. The connection
//! adapter decodes transport frames into these values, queues them, and
//! performs the sends that an `Outcome` calls for.
use std::collections::HashMap;

use vstd::prelude::*;

use crate::manager::{fresh_token, Manager};
use crate::player::{player_eqv, players_match, Player};
use crate::response::Response;
use crate::{Error, Tile};

verus! {

/// A decoded request arriving on a session's namespace.
pub enum GameRequest {
    Register { game_uuid: u128, username: String },
    Logout { game_uuid: u128, player_uuid: u128 },
    Id { player_uuid: u128 },
    PlayerList,
    Start,
}

/// A decoded request arriving on the lobby namespace.
pub enum LobbyRequest {
    ListGames,
}

/// A session event, ready for the coordinator. The reply destination
/// travels beside the event in the adapter, not in it.
#[derive(Debug, PartialEq)]
pub enum GameEvent {
    Registration { game_uuid: u128, player: Player },
    Logout { game_uuid: u128, player_uuid: u128 },
    WhoAmI { player_uuid: u128 },
    PlayerList { game_uuid: u128 },
    StartGame { game_uuid: u128 },
}

/// A lobby event, ready for the coordinator.
#[derive(Debug, PartialEq)]
pub enum LobbyEvent {
    ListGames,
}

/// Everything the coordinator drains from its queue.
#[derive(Debug, PartialEq)]
pub enum Event {
    Lobby(LobbyEvent),
    Game(GameEvent),
}

/// The payload of a reply envelope.
pub enum ReplyData {
    Player(Player),
    Players(Vec<Player>),
    Games(Vec<u128>),
    Message(&'static str),
}

/// What one coordinator step asks the adapter to send out: at most one
/// reply to the requester, at most one roster snapshot to broadcast to the
/// whole session (requester included), and, after a successful start, each
/// player's rack to be pushed privately to that player alone.
pub struct Outcome {
    pub ack: Option<Response<ReplyData>>,
    pub roster_push: Option<Vec<Player>>,
    pub deals: Option<HashMap<u128, Vec<Tile>>>,
}

/// A registration event must carry a player with an empty rack.
pub open spec fn event_wf(event: Event) -> bool {
    match event {
        Event::Game(GameEvent::Registration { player, .. }) => player.tiles@.len() == 0,
        _ => true,
    }
}

/// The reply is the error envelope for `e`.
pub open spec fn ack_is_error(out: Outcome, e: Error) -> bool {
    match out.ack {
        Some(resp) => resp.data is None && resp.error == Some(e),
        None => false,
    }
}

/// `roster_push` carries the session's roster as it stands after the step
/// (or an empty listing if the session is gone).
pub open spec fn pushes_roster_of(out: Outcome, post: Manager, game_uuid: u128) -> bool {
    match out.roster_push {
        Some(listing) => if post.game_map@.contains_key(game_uuid) {
            players_match(listing@, post.game_map@[game_uuid].players@)
        } else {
            listing@ == Seq::<Player>::empty()
        },
        None => false,
    }
}

/// Decides what a register request on a session namespace becomes. A
/// connection already associated with a player registers nothing; otherwise
/// a player is minted under a fresh random id with the requested name and
/// an empty rack. The returned player is the adapter's copy to associate
/// with the connection; the event carries its twin to the coordinator.
pub fn handle_registration_request(data: GameRequest, already_attached: bool) -> (r: Option<
    (Player, Event),
>)
    ensures
        match data {
            GameRequest::Register { game_uuid, username } => if already_attached {
                r is None
            } else {
                match r {
                    Some((p, ev)) => {
                        &&& p.name@ == username@
                        &&& p.tiles@.len() == 0
                        &&& event_wf(ev)
                        &&& match ev {
                            Event::Game(GameEvent::Registration { game_uuid: g, player: q }) => g
                                == game_uuid && player_eqv(q, p),
                            _ => false,
                        }
                    },
                    None => false,
                }
            },
            _ => r is None,
        },
{
    match data {
        GameRequest::Register { game_uuid, username } => {
            if already_attached {
                None
            } else {
                let player = Player::new(fresh_token(), username.as_str());
                let copy = player.clone();
                Some((copy, Event::Game(GameEvent::Registration { game_uuid, player })))
            }
        },
        _ => None,
    }
}

/// Decides what a logout request becomes: only a connection that is
/// associated with a player has anything to log out.
pub fn handle_logout_request(data: GameRequest, already_attached: bool) -> (r: Option<Event>)
    ensures
        match data {
            GameRequest::Logout { game_uuid, player_uuid } => if already_attached {
                r == Some(Event::Game(GameEvent::Logout { game_uuid, player_uuid }))
            } else {
                r is None
            },
            _ => r is None,
        },
{
    match data {
        GameRequest::Logout { game_uuid, player_uuid } => {
            if already_attached {
                Some(Event::Game(GameEvent::Logout { game_uuid, player_uuid }))
            } else {
                None
            }
        },
        _ => None,
    }
}

/// Decides what a who-am-i request becomes: a connection that already
/// knows its player must not resolve again.
pub fn handle_id_request(data: GameRequest, already_attached: bool) -> (r: Option<Event>)
    ensures
        match data {
            GameRequest::Id { player_uuid } => if already_attached {
                r is None
            } else {
                r == Some(Event::Game(GameEvent::WhoAmI { player_uuid }))
            },
            _ => r is None,
        },
{
    match data {
        GameRequest::Id { player_uuid } => {
            if !already_attached {
                Some(Event::Game(GameEvent::WhoAmI { player_uuid }))
            } else {
                None
            }
        },
        _ => None,
    }
}

/// Decides what a player-list request becomes; the session is the one the
/// connection's namespace names.
pub fn handle_player_list_request(data: GameRequest, game_uuid: u128) -> (r: Option<Event>)
    ensures
        match data {
            GameRequest::PlayerList => r == Some(Event::Game(GameEvent::PlayerList { game_uuid })),
            _ => r is None,
        },
{
    match data {
        GameRequest::PlayerList => Some(Event::Game(GameEvent::PlayerList { game_uuid })),
        _ => None,
    }
}

/// Decides what a start request becomes.
pub fn handle_start_game_request(data: GameRequest, game_uuid: u128) -> (r: Option<Event>)
    ensures
        match data {
            GameRequest::Start => r == Some(Event::Game(GameEvent::StartGame { game_uuid })),
            _ => r is None,
        },
{
    match data {
        GameRequest::Start => Some(Event::Game(GameEvent::StartGame { game_uuid })),
        _ => None,
    }
}

/// Decides what a lobby request becomes.
pub fn handle_list_games_request(data: LobbyRequest) -> (r: Option<Event>)
    ensures
        match data {
            LobbyRequest::ListGames => r == Some(Event::Lobby(LobbyEvent::ListGames)),
        },
{
    match data {
        LobbyRequest::ListGames => Some(Event::Lobby(LobbyEvent::ListGames)),
    }
}

/// Applies one event to the registry: the single-writer coordinator step.
/// Registry errors never escape it; each becomes an error envelope
/// addressed to the requester, so one bad request cannot stop the draining
/// loop or touch another session.
pub fn handle_events(event: Event, manager: &mut Manager) -> (out: Outcome)
    requires
        old(manager).wf(),
        event_wf(event),
    ensures
        final(manager).wf(),
        match event {
            Event::Lobby(LobbyEvent::ListGames) => {
                &&& Manager::same_state(*old(manager), *final(manager))
                &&& out.roster_push is None
                &&& out.deals is None
                &&& match out.ack {
                    Some(resp) => resp.error is None && match resp.data {
                        Some(ReplyData::Games(v)) => v@.to_set() == old(manager).game_map@.dom()
                            && v@.no_duplicates(),
                        _ => false,
                    },
                    None => false,
                }
            },
            Event::Game(ge) => match ge {
                GameEvent::Registration { game_uuid, player } => {
                    &&& out.deals is None
                    &&& pushes_roster_of(out, *final(manager), game_uuid)
                    &&& if !old(manager).game_map@.contains_key(game_uuid) {
                        Manager::same_state(*old(manager), *final(manager)) && ack_is_error(
                            out,
                            Error::GameNotFound,
                        )
                    } else if old(manager).game_map@[game_uuid].players@.len() >= 4 {
                        Manager::same_state(*old(manager), *final(manager)) && ack_is_error(
                            out,
                            Error::TooManyPlayers,
                        )
                    } else if old(manager).attached(player.id) {
                        Manager::same_state(*old(manager), *final(manager)) && ack_is_error(
                            out,
                            Error::DuplicatePlayerId,
                        )
                    } else {
                        &&& final(manager).game_map@ == old(manager).game_map@.insert(
                            game_uuid,
                            final(manager).game_map@[game_uuid],
                        )
                        &&& final(manager).game_map@[game_uuid].players@ == old(
                            manager,
                        ).game_map@[game_uuid].players@.push(player)
                        &&& final(manager).player_to_game@ == old(
                            manager,
                        ).player_to_game@.insert(player.id, game_uuid)
                        &&& match out.ack {
                            Some(resp) => resp.error is None && match resp.data {
                                Some(ReplyData::Player(q)) => player_eqv(q, player),
                                _ => false,
                            },
                            None => false,
                        }
                    }
                },
                GameEvent::Logout { game_uuid, player_uuid } => {
                    &&& out.deals is None
                    &&& if !old(manager).game_map@.contains_key(game_uuid) {
                        &&& Manager::same_state(*old(manager), *final(manager))
                        &&& ack_is_error(out, Error::GameNotFound)
                        &&& out.roster_push is None
                    } else if !old(manager).game_map@[game_uuid].has_player(player_uuid) {
                        &&& Manager::same_state(*old(manager), *final(manager))
                        &&& ack_is_error(out, Error::PlayerNotRegistered)
                        &&& out.roster_push is None
                    } else {
                        let pre_game = old(manager).game_map@[game_uuid];
                        &&& final(manager).game_map@ == old(manager).game_map@.insert(
                            game_uuid,
                            final(manager).game_map@[game_uuid],
                        )
                        &&& final(manager).game_map@[game_uuid].players@
                            == pre_game.players@.remove(pre_game.player_index(player_uuid))
                        &&& final(manager).player_to_game@ == old(
                            manager,
                        ).player_to_game@.remove(player_uuid)
                        &&& pushes_roster_of(out, *final(manager), game_uuid)
                        &&& match out.ack {
                            Some(resp) => resp.error is None && match resp.data {
                                Some(ReplyData::Message(m)) => m@
                                    == "Player successfully removed"@,
                                _ => false,
                            },
                            None => false,
                        }
                    }
                },
                GameEvent::WhoAmI { player_uuid } => {
                    &&& Manager::same_state(*old(manager), *final(manager))
                    &&& out.roster_push is None
                    &&& out.deals is None
                    &&& if !old(manager).player_to_game@.contains_key(player_uuid) {
                        ack_is_error(out, Error::PlayerNotRegistered)
                    } else if !old(manager).game_map@.contains_key(
                        old(manager).player_to_game@[player_uuid],
                    ) {
                        ack_is_error(out, Error::GameNotFound)
                    } else {
                        let game = old(manager).game_map@[old(
                            manager,
                        ).player_to_game@[player_uuid]];
                        ||| (game.has_player(player_uuid) && match out.ack {
                            Some(resp) => resp.error is None && match resp.data {
                                Some(ReplyData::Player(q)) => q.id == player_uuid && player_eqv(
                                    q,
                                    game.players@[game.player_index(player_uuid)],
                                ),
                                _ => false,
                            },
                            None => false,
                        })
                        ||| (!game.has_player(player_uuid) && ack_is_error(
                            out,
                            Error::PlayerNotRegistered,
                        ))
                    }
                },
                GameEvent::PlayerList { game_uuid } => {
                    &&& Manager::same_state(*old(manager), *final(manager))
                    &&& out.roster_push is None
                    &&& out.deals is None
                    &&& match out.ack {
                        Some(resp) => resp.error is None && match resp.data {
                            Some(ReplyData::Players(v)) => if old(manager).game_map@.contains_key(
                                game_uuid,
                            ) {
                                players_match(v@, old(manager).game_map@[game_uuid].players@)
                            } else {
                                v@ == Seq::<Player>::empty()
                            },
                            _ => false,
                        },
                        None => false,
                    }
                },
                GameEvent::StartGame { game_uuid } => {
                    &&& out.roster_push is None
                    &&& final(manager).player_to_game == old(manager).player_to_game
                    &&& if !old(manager).game_map@.contains_key(game_uuid) {
                        &&& Manager::same_state(*old(manager), *final(manager))
                        &&& ack_is_error(out, Error::GameNotFound)
                        &&& out.deals is None
                    } else {
                        let pre_game = old(manager).game_map@[game_uuid];
                        let n = pre_game.players@.len() as int;
                        let bag0 = pre_game.tile_bag@;
                        if pre_game.players@.len() < 2 {
                            &&& Manager::same_state(*old(manager), *final(manager))
                            &&& ack_is_error(out, Error::NotEnoughPlayers)
                            &&& out.deals is None
                        } else if !pre_game.all_racks_empty() {
                            &&& Manager::same_state(*old(manager), *final(manager))
                            &&& ack_is_error(out, Error::PlayerHas7Tiles)
                            &&& out.deals is None
                        } else if bag0.len() < 7 * n {
                            &&& Manager::same_state(*old(manager), *final(manager))
                            &&& ack_is_error(out, Error::NoMoreTiles)
                            &&& out.deals is None
                        } else {
                            let post_game = final(manager).game_map@[game_uuid];
                            &&& final(manager).game_map@ == old(manager).game_map@.insert(
                                game_uuid,
                                post_game,
                            )
                            &&& post_game.players@.len() == n
                            &&& forall|k: int|
                                0 <= k < n ==> (#[trigger] post_game.players@[k]).id
                                    == pre_game.players@[k].id && post_game.players@[k].tiles@
                                    == crate::game::dealt_rack(bag0, n, k)
                            &&& post_game.tile_bag@ == bag0.take(bag0.len() - 7 * n)
                            &&& match out.ack {
                                Some(resp) => resp.error is None && match resp.data {
                                    Some(ReplyData::Message(m)) => m@ == "Game started"@,
                                    _ => false,
                                },
                                None => false,
                            }
                            &&& match out.deals {
                                Some(m) => {
                                    &&& forall|k: int|
                                        0 <= k < n ==> m@.contains_key(
                                            (#[trigger] pre_game.players@[k]).id,
                                        ) && m@[pre_game.players@[k].id]@
                                            == crate::game::dealt_rack(bag0, n, k)
                                    &&& forall|key: u128| #[trigger]
                                        m@.contains_key(key) ==> pre_game.has_player(key)
                                },
                                None => false,
                            }
                        }
                    }
                },
            },
        },
{
    match event {
        Event::Lobby(lobby_event) => match lobby_event {
            LobbyEvent::ListGames => {
                let games = manager.get_game_list();
                Outcome {
                    ack: Some(Response::from_data(ReplyData::Games(games))),
                    roster_push: None,
                    deals: None,
                }
            },
        },
        Event::Game(game_event) => match game_event {
            GameEvent::Registration { game_uuid, player } => {
                let ack = match manager.register_player_to_game(game_uuid, player) {
                    Ok(p) => Response::from_data(ReplyData::Player(p)),
                    Err(error) => Response::from_error(error),
                };
                let listing = manager.get_players_for_game(game_uuid);
                Outcome { ack: Some(ack), roster_push: Some(listing), deals: None }
            },
            GameEvent::Logout { game_uuid, player_uuid } => {
                match manager.remove_player_from_game(game_uuid, player_uuid) {
                    Err(error) => Outcome {
                        ack: Some(Response::from_error(error)),
                        roster_push: None,
                        deals: None,
                    },
                    Ok(()) => {
                        let listing = manager.get_players_for_game(game_uuid);
                        Outcome {
                            ack: Some(
                                Response::from_data(
                                    ReplyData::Message("Player successfully removed"),
                                ),
                            ),
                            roster_push: Some(listing),
                            deals: None,
                        }
                    },
                }
            },
            GameEvent::WhoAmI { player_uuid } => {
                let ack = match manager.player_from_uuid(player_uuid) {
                    Ok(p) => Response::from_data(ReplyData::Player(p)),
                    Err(error) => Response::from_error(error),
                };
                Outcome { ack: Some(ack), roster_push: None, deals: None }
            },
            GameEvent::PlayerList { game_uuid } => {
                let listing = manager.get_players_for_game(game_uuid);
                Outcome {
                    ack: Some(Response::from_data(ReplyData::Players(listing))),
                    roster_push: None,
                    deals: None,
                }
            },
            GameEvent::StartGame { game_uuid } => match manager.start_game(game_uuid) {
                Ok(racks) => Outcome {
                    ack: Some(Response::from_data(ReplyData::Message("Game started"))),
                    roster_push: None,
                    deals: Some(racks),
                },
                Err(error) => Outcome {
                    ack: Some(Response::from_error(error)),
                    roster_push: None,
                    deals: None,
                },
            },
        },
    }
}

} // verus!
