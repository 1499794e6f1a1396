//! The session registry: owns every session, keyed by an opaque token, and
//! keeps a reverse index from player id to session id so a reconnecting
//! client can be resolved without repeating its session.
use std::collections::HashMap;

use vstd::prelude::*;
use vstd::std_specs::iter::IteratorSpec;

use crate::game::{dealt_rack, standard_bag, Game};
use crate::player::{player_eqv, players_match, Player};
use crate::{Error, Tile};

verus! {

broadcast use vstd::std_specs::hash::group_hash_axioms;

/// Relies on uuid's `Uuid::new_v4` (read back through `as_u128`): a freshly
/// generated random version-4 identifier. Nothing is promised of the value;
/// it is random, and the caller checks uniqueness against its own tables.
#[verifier::external_body]
pub(crate) fn fresh_token() -> u128 {
    uuid::Uuid::new_v4().as_u128()
}

/// The set of tokens below `t` has exactly `t` members.
proof fn lemma_u128_range_len(t: u128)
    ensures
        Set::new(|v: u128| v < t).finite(),
        Set::new(|v: u128| v < t).len() == t,
    decreases t,
{
    if t == 0 {
        assert(Set::new(|v: u128| v < t) =~= Set::<u128>::empty());
    } else {
        lemma_u128_range_len((t - 1) as u128);
        assert(Set::new(|v: u128| v < t) =~= Set::new(|v: u128| v < (t - 1) as u128).insert(
            (t - 1) as u128,
        ));
    }
}

/// The process-wide registry: all sessions, plus the player-to-session
/// reverse index.
pub struct Manager {
    pub game_map: HashMap<u128, Game>,
    pub player_to_game: HashMap<u128, u128>,
}

impl Manager {
    /// The player id is currently attached to a live session: the reverse
    /// index knows it and the session it names still exists.
    pub open spec fn attached(self, player_id: u128) -> bool {
        &&& self.player_to_game@.contains_key(player_id)
        &&& self.game_map@.contains_key(self.player_to_game@[player_id])
    }

    /// The registry's observable state is the same in both values.
    pub open spec fn same_state(pre: Manager, post: Manager) -> bool {
        post.game_map@ == pre.game_map@ && post.player_to_game@ == pre.player_to_game@
    }

    /// A fresh empty session, as `create_game` installs it.
    pub open spec fn fresh_game(g: Game) -> bool {
        &&& g.wf()
        &&& g.players@.len() == 0
        &&& g.tile_bag@.len() == 98
        &&& g.tile_bag@.to_multiset() == standard_bag().to_multiset()
        &&& g.tile_total() == 98
        &&& g.current_player_index == 0
    }

    /// Registry well-formedness: every session is well-formed, and every
    /// roster member is indexed back to exactly its session. (The converse
    /// does not hold: an index entry goes stale when its session is
    /// removed, and `player_from_uuid` reports exactly that as
    /// `GameNotFound`.)
    pub open spec fn wf(self) -> bool {
        &&& forall|s: u128| #[trigger]
            self.game_map@.contains_key(s) ==> self.game_map@[s].wf()
        &&& forall|s: u128, k: int|
            self.game_map@.contains_key(s) && 0 <= k < self.game_map@[s].players@.len() ==> {
                let pid = (#[trigger] self.game_map@[s].players@[k]).id;
                self.player_to_game@.contains_key(pid) && self.player_to_game@[pid] == s
            }
    }

    /// An empty registry: no sessions, no index entries.
    pub fn new() -> (r: Manager)
        ensures
            r.wf(),
            r.game_map@ == Map::<u128, Game>::empty(),
            r.player_to_game@ == Map::<u128, u128>::empty(),
    {
        Manager { game_map: HashMap::new(), player_to_game: HashMap::new() }
    }

    /// Creates a fresh Open session under a newly generated token that no
    /// existing session uses, and returns the token.
    pub fn create_game(&mut self) -> (r: u128)
        requires
            old(self).wf(),
        ensures
            final(self).wf(),
            !old(self).game_map@.contains_key(r),
            final(self).game_map@.contains_key(r),
            Manager::fresh_game(final(self).game_map@[r]),
            final(self).game_map@ == old(self).game_map@.insert(r, final(self).game_map@[r]),
            final(self).player_to_game == old(self).player_to_game,
    {
        let mut token: u128 = fresh_token();
        if self.game_map.contains_key(&token) {
            // A random 128-bit token collided with a live session: all but
            // impossible, yet a fresh token is still owed. Fall back to the
            // smallest unused value, which a finite map cannot exhaust.
            token = 0;
            while self.game_map.contains_key(&token)
                invariant
                    *self == *old(self),
                    forall|v: u128| v < token ==> self.game_map@.dom().contains(v),
                    token <= self.game_map@.dom().len(),
                decreases self.game_map@.dom().len() - token,
            {
                proof {
                    assert(vstd::std_specs::hash::spec_hash_map_len(&self.game_map)
                        == self.game_map@.len());
                    assert(token < u128::MAX);
                    lemma_u128_range_len((token + 1) as u128);
                    let taken = Set::new(|v: u128| v < token + 1);
                    assert(taken.subset_of(self.game_map@.dom()));
                    vstd::set_lib::lemma_len_subset(taken, self.game_map@.dom());
                }
                token = token + 1;
            }
        }
        let game = Game::new();
        self.game_map.insert(token, game);
        proof {
            assert forall|s: u128, k: int|
                self.game_map@.contains_key(s) && 0 <= k < self.game_map@[s].players@.len()
                    implies {
                    let pid = (#[trigger] self.game_map@[s].players@[k]).id;
                    self.player_to_game@.contains_key(pid) && self.player_to_game@[pid] == s
                } by {
                assert(s != token ==> self.game_map@[s] == old(self).game_map@[s]);
            }
        }
        token
    }

    /// Registers a player into the named session. On success the reverse
    /// index gains (or overwrites) the player's entry, and a copy of the
    /// registered player comes back. A player attached to any live session
    /// is rejected as a duplicate.
    pub fn register_player_to_game(&mut self, game_uuid: u128, player: Player) -> (r: Result<
        Player,
        Error,
    >)
        requires
            old(self).wf(),
            player.tiles@.len() == 0,
        ensures
            final(self).wf(),
            !old(self).game_map@.contains_key(game_uuid) ==> r == Err::<Player, Error>(
                Error::GameNotFound,
            ) && Manager::same_state(*old(self), *final(self)),
            old(self).game_map@.contains_key(game_uuid) && old(self).game_map@[game_uuid].players@.len() >= 4 ==> r == Err::<Player, Error>(
                Error::TooManyPlayers,
            ) && Manager::same_state(*old(self), *final(self)),
            old(self).game_map@.contains_key(game_uuid) && old(self).game_map@[game_uuid].players@.len() < 4 && old(self).attached(player.id) ==> r
                == Err::<Player, Error>(Error::DuplicatePlayerId) && Manager::same_state(*old(self), *final(self)),
            old(self).game_map@.contains_key(game_uuid) && old(self).game_map@[game_uuid].players@.len() < 4 && !old(self).attached(player.id) ==> ({
                &&& r is Ok
                &&& player_eqv(r->Ok_0, player)
                &&& final(self).game_map@ == old(self).game_map@.insert(
                    game_uuid,
                    final(self).game_map@[game_uuid],
                )
                &&& final(self).game_map@[game_uuid].players@ == old(self).game_map@[game_uuid].players@.push(player)
                &&& Game::same_but_roster(
                    old(self).game_map@[game_uuid],
                    final(self).game_map@[game_uuid],
                )
                &&& final(self).player_to_game@ == old(self).player_to_game@.insert(
                    player.id,
                    game_uuid,
                )
            }),
    {
        if !self.game_map.contains_key(&game_uuid) {
            return Err(Error::GameNotFound);
        }
        let pid: u128 = player.get_id();
        let is_attached: bool = match self.player_to_game.get(&pid) {
            Some(s) => self.game_map.contains_key(s),
            None => false,
        };
        let mut game = match self.game_map.remove(&game_uuid) {
            Some(g) => g,
            None => {
                proof {
                    assert(false);
                }
                return Err(Error::GameNotFound);
            },
        };
        if game.players.len() >= 4 {
            self.game_map.insert(game_uuid, game);
            proof {
                assert(self.game_map@ =~= old(self).game_map@);
            }
            return Err(Error::TooManyPlayers);
        }
        if is_attached {
            self.game_map.insert(game_uuid, game);
            proof {
                assert(self.game_map@ =~= old(self).game_map@);
            }
            return Err(Error::DuplicatePlayerId);
        }
        proof {
            // not attached anywhere, so in particular not on this roster
            if game.has_player(pid) {
                let k = choose|k: int|
                    0 <= k < game.players@.len() && game.players@[k].id == pid;
                assert(old(self).game_map@[game_uuid].players@[k].id == pid);
                assert(false);
            }
        }
        let registered = player.clone();
        match game.register_player(player) {
            Err(e) => {
                proof {
                    assert(false);
                }
                self.game_map.insert(game_uuid, game);
                Err(e)
            },
            Ok(()) => {
                self.game_map.insert(game_uuid, game);
                self.player_to_game.insert(pid, game_uuid);
                proof {
                    assert forall|s: u128, k: int|
                        self.game_map@.contains_key(s) && 0 <= k
                            < self.game_map@[s].players@.len() implies {
                        let q = (#[trigger] self.game_map@[s].players@[k]).id;
                        self.player_to_game@.contains_key(q) && self.player_to_game@[q] == s
                    } by {
                        if s == game_uuid {
                            if k < old(self).game_map@[game_uuid].players@.len() {
                                assert(old(self).game_map@[game_uuid].players@[k]
                                    == self.game_map@[s].players@[k]);
                            }
                        } else {
                            assert(old(self).game_map@.contains_key(s));
                            assert(old(self).game_map@[s] == self.game_map@[s]);
                            // no other roster holds this id, else it would be attached
                            assert(self.game_map@[s].players@[k].id != pid);
                        }
                    }
                }
                Ok(registered)
            },
        }
    }

    /// Removes a player from the named session; their rack leaves with them
    /// and their reverse-index entry is dropped.
    pub fn remove_player_from_game(&mut self, game_uuid: u128, player_uuid: u128) -> (r: Result<
        (),
        Error,
    >)
        requires
            old(self).wf(),
        ensures
            final(self).wf(),
            !old(self).game_map@.contains_key(game_uuid) ==> r == Err::<(), Error>(
                Error::GameNotFound,
            ) && Manager::same_state(*old(self), *final(self)),
            old(self).game_map@.contains_key(game_uuid) && !old(self).game_map@[game_uuid].has_player(player_uuid) ==> r == Err::<(), Error>(
                Error::PlayerNotRegistered,
            ) && Manager::same_state(*old(self), *final(self)),
            old(self).game_map@.contains_key(game_uuid) && old(self).game_map@[game_uuid].has_player(
                player_uuid,
            ) ==> ({
                let pre_game = old(self).game_map@[game_uuid];
                &&& r == Ok::<(), Error>(())
                &&& final(self).game_map@ == old(self).game_map@.insert(
                    game_uuid,
                    final(self).game_map@[game_uuid],
                )
                &&& final(self).game_map@[game_uuid].players@ == pre_game.players@.remove(
                    pre_game.player_index(player_uuid),
                )
                &&& Game::same_but_roster(pre_game, final(self).game_map@[game_uuid])
                &&& final(self).player_to_game@ == old(self).player_to_game@.remove(player_uuid)
            }),
    {
        if !self.game_map.contains_key(&game_uuid) {
            return Err(Error::GameNotFound);
        }
        let mut game = match self.game_map.remove(&game_uuid) {
            Some(g) => g,
            None => {
                proof {
                    assert(false);
                }
                return Err(Error::GameNotFound);
            },
        };
        match game.remove_player(player_uuid) {
            Err(e) => {
                self.game_map.insert(game_uuid, game);
                proof {
                    assert(self.game_map@ =~= old(self).game_map@);
                }
                Err(e)
            },
            Ok(()) => {
                proof {
                    old(self).game_map@[game_uuid].lemma_player_index(player_uuid);
                }
                self.game_map.insert(game_uuid, game);
                self.player_to_game.remove(&player_uuid);
                proof {
                    let pre_game = old(self).game_map@[game_uuid];
                    let jj = pre_game.player_index(player_uuid);
                    assert forall|s: u128, k: int|
                        self.game_map@.contains_key(s) && 0 <= k
                            < self.game_map@[s].players@.len() implies {
                        let q = (#[trigger] self.game_map@[s].players@[k]).id;
                        self.player_to_game@.contains_key(q) && self.player_to_game@[q] == s
                    } by {
                        if s == game_uuid {
                            // the remaining roster members keep their entries
                            let q = self.game_map@[s].players@[k].id;
                            if k < jj {
                                assert(pre_game.players@[k].id == q);
                            } else {
                                assert(pre_game.players@[k + 1].id == q);
                            }
                            assert(q != player_uuid);
                        } else {
                            assert(old(self).game_map@.contains_key(s));
                            assert(old(self).game_map@[s] == self.game_map@[s]);
                            // a member of another session cannot carry the
                            // removed player's id: its index entry names
                            // that session, while the removed player's named
                            // this one
                            assert(self.game_map@[s].players@[k].id != player_uuid);
                        }
                    }
                }
                Ok(())
            },
        }
    }

    /// Destroys a session outright. Reverse-index entries of its players go
    /// stale; `player_from_uuid` then reports them as `GameNotFound`.
    pub fn remove_game(&mut self, game_uuid: u128) -> (r: Result<(), Error>)
        requires
            old(self).wf(),
        ensures
            final(self).wf(),
            !old(self).game_map@.contains_key(game_uuid) ==> r == Err::<(), Error>(
                Error::GameNotFound,
            ) && Manager::same_state(*old(self), *final(self)),
            old(self).game_map@.contains_key(game_uuid) ==> r == Ok::<(), Error>(()) && final(self).game_map@ == old(self).game_map@.remove(game_uuid) && final(self).player_to_game
                == old(self).player_to_game,
    {
        match self.game_map.remove(&game_uuid) {
            None => {
                proof {
                    assert(self.game_map@ =~= old(self).game_map@);
                }
                Err(Error::GameNotFound)
            },
            Some(_) => Ok(()),
        }
    }

    /// The tokens of all live sessions, each exactly once, in no promised
    /// order.
    pub fn get_game_list(&self) -> (r: Vec<u128>)
        ensures
            r@.to_set() == self.game_map@.dom(),
            r@.no_duplicates(),
    {
        let mut r: Vec<u128> = Vec::new();
        let ghost gs = vstd::std_specs::hash::spec_keys_iter(&self.game_map).remaining();
        for k in it: self.game_map.keys()
            invariant
                it.seq() == gs,
                r@.len() == it.index(),
                r@ == gs.take(r@.len() as int).unref(),
        {
            r.push(*k);
            proof {
                assert(r@ =~= gs.take(r@.len() as int).unref());
            }
        }
        proof {
            assert(r@.len() == gs.len());
            assert(gs.take(gs.len() as int) =~= gs);
            assert(r@ == gs.unref());
        }
        r
    }

    /// Resolves a player id through the reverse index into its session: the
    /// two-hop "who am I" lookup. An id the index does not know is
    /// `PlayerNotRegistered`; a stale entry whose session has since been
    /// removed surfaces as `GameNotFound`.
    pub fn player_from_uuid(&self, player_uuid: u128) -> (r: Result<Player, Error>)
        requires
            self.wf(),
        ensures
            !self.player_to_game@.contains_key(player_uuid) ==> r == Err::<Player, Error>(
                Error::PlayerNotRegistered,
            ),
            self.player_to_game@.contains_key(player_uuid) && !self.game_map@.contains_key(
                self.player_to_game@[player_uuid],
            ) ==> r == Err::<Player, Error>(Error::GameNotFound),
            self.attached(player_uuid) ==> ({
                let game = self.game_map@[self.player_to_game@[player_uuid]];
                ||| (r is Ok && game.has_player(player_uuid) && r->Ok_0.id == player_uuid
                    && player_eqv(r->Ok_0, game.players@[game.player_index(player_uuid)]))
                ||| (r == Err::<Player, Error>(Error::PlayerNotRegistered)
                    && !game.has_player(player_uuid))
            }),
    {
        match self.player_to_game.get(&player_uuid) {
            None => Err(Error::PlayerNotRegistered),
            Some(game_uuid) => match self.game_map.get(game_uuid) {
                None => Err(Error::GameNotFound),
                Some(game) => game.get_player(player_uuid),
            },
        }
    }

    /// A snapshot of the named session's roster, in join order; an unknown
    /// session reads as empty rather than as an error.
    pub fn get_players_for_game(&self, game_uuid: u128) -> (r: Vec<Player>)
        requires
            self.wf(),
        ensures
            self.game_map@.contains_key(game_uuid) ==> players_match(
                r@,
                self.game_map@[game_uuid].players@,
            ),
            !self.game_map@.contains_key(game_uuid) ==> r@ == Seq::<Player>::empty(),
    {
        match self.game_map.get(&game_uuid) {
            Some(game) => game.get_players(),
            None => Vec::new(),
        }
    }

    /// Starts the named session: deals seven tiles to every player and
    /// returns the dealt racks keyed by player id.
    pub fn start_game(&mut self, game_uuid: u128) -> (r: Result<HashMap<u128, Vec<Tile>>, Error>)
        requires
            old(self).wf(),
        ensures
            final(self).wf(),
            final(self).player_to_game == old(self).player_to_game,
            r is Err ==> Manager::same_state(*old(self), *final(self)),
            !old(self).game_map@.contains_key(game_uuid) ==> r == Err::<
                HashMap<u128, Vec<Tile>>,
                Error,
            >(Error::GameNotFound) && Manager::same_state(*old(self), *final(self)),
            old(self).game_map@.contains_key(game_uuid) && old(self).game_map@[game_uuid].players@.len() < 2 ==> r == Err::<
                HashMap<u128, Vec<Tile>>,
                Error,
            >(Error::NotEnoughPlayers) && Manager::same_state(*old(self), *final(self)),
            old(self).game_map@.contains_key(game_uuid) && old(self).game_map@[game_uuid].players@.len() >= 2 && !old(self).game_map@[game_uuid].all_racks_empty() ==> r == Err::<
                HashMap<u128, Vec<Tile>>,
                Error,
            >(Error::PlayerHas7Tiles) && Manager::same_state(*old(self), *final(self)),
            old(self).game_map@.contains_key(game_uuid) && old(self).game_map@[game_uuid].players@.len() >= 2 && old(self).game_map@[game_uuid].all_racks_empty() && old(self).game_map@[game_uuid].tile_bag@.len() < 7 * old(self).game_map@[game_uuid].players@.len() ==> r == Err::<
                HashMap<u128, Vec<Tile>>,
                Error,
            >(Error::NoMoreTiles) && Manager::same_state(*old(self), *final(self)),
            old(self).game_map@.contains_key(game_uuid) ==> ({
                let pre_game = old(self).game_map@[game_uuid];
                let n = pre_game.players@.len() as int;
                let bag0 = pre_game.tile_bag@;
                pre_game.players@.len() >= 2 && pre_game.all_racks_empty() && bag0.len() >= 7 * n
                    ==> {
                    let post_game = final(self).game_map@[game_uuid];
                    &&& r is Ok
                    &&& final(self).game_map@ == old(self).game_map@.insert(game_uuid, post_game)
                    &&& post_game.players@.len() == n
                    &&& forall|k: int|
                        0 <= k < n ==> (#[trigger] post_game.players@[k]).id
                            == pre_game.players@[k].id && post_game.players@[k].tiles@
                            == dealt_rack(bag0, n, k)
                    &&& post_game.tile_bag@ == bag0.take(bag0.len() - 7 * n)
                    &&& forall|k: int|
                        0 <= k < n ==> r->Ok_0@.contains_key(
                            (#[trigger] pre_game.players@[k]).id,
                        ) && r->Ok_0@[pre_game.players@[k].id]@ == dealt_rack(bag0, n, k)
                    &&& forall|key: u128| #[trigger]
                        r->Ok_0@.contains_key(key) ==> pre_game.has_player(key)
                }
            }),
    {
        if !self.game_map.contains_key(&game_uuid) {
            return Err(Error::GameNotFound);
        }
        let mut game = match self.game_map.remove(&game_uuid) {
            Some(g) => g,
            None => {
                proof {
                    assert(false);
                }
                return Err(Error::GameNotFound);
            },
        };
        let result = game.start();
        self.game_map.insert(game_uuid, game);
        proof {
            if result is Err {
                assert(self.game_map@ =~= old(self).game_map@);
            }
            assert forall|s: u128, k: int|
                self.game_map@.contains_key(s) && 0 <= k
                    < self.game_map@[s].players@.len() implies {
                let q = (#[trigger] self.game_map@[s].players@[k]).id;
                self.player_to_game@.contains_key(q) && self.player_to_game@[q] == s
            } by {
                assert(old(self).game_map@.contains_key(s));
                if s == game_uuid {
                    assert(old(self).game_map@[game_uuid].players@[k].id
                        == self.game_map@[s].players@[k].id);
                } else {
                    assert(old(self).game_map@[s] == self.game_map@[s]);
                }
            }
        }
        result
    }
}

} // verus!
