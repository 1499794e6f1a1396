//! One game session: the roster of players, the shuffled tile bag, the
//! per-player racks and the turn cursor, together with the transition
//! logic from registration up to "game started".
use std::collections::HashMap;

use vstd::prelude::*;

use rand::seq::SliceRandom;

use crate::player::{player_eqv, players_match, Player};
use crate::{Error, Tile};

verus! {

broadcast use vstd::std_specs::hash::group_hash_axioms;

/// Width and height of the playing board.
pub const BOARD_SIZE: usize = 15;

/// Most players a session accepts.
pub const MAX_PLAYERS: usize = 4;

/// Tiles dealt to each player when the session starts.
pub const RACK_SIZE: usize = 7;

/// The standard letter distribution, minus the two blanks: for each of the
/// 26 letters, its point value and how many copies the bag holds. The
/// counts sum to 98.
pub open spec fn distribution() -> Seq<(char, usize, usize)> {
    seq![
        ('A', 1, 9), ('B', 3, 2), ('C', 3, 2), ('D', 2, 4),
        ('E', 1, 12), ('F', 4, 2), ('G', 2, 3), ('H', 4, 2),
        ('I', 1, 9), ('J', 8, 1), ('K', 5, 1), ('L', 1, 4),
        ('M', 3, 2), ('N', 1, 6), ('O', 1, 8), ('P', 3, 2),
        ('Q', 10, 1), ('R', 1, 6), ('S', 1, 4), ('T', 1, 6),
        ('U', 1, 4), ('V', 4, 2), ('W', 4, 2), ('X', 8, 1),
        ('Y', 4, 2), ('Z', 10, 1),
    ]
}

/// The first `i` letter classes of the distribution, laid out as tiles in
/// order: all copies of the first letter, then all of the second, and so on.
pub open spec fn standard_bag_prefix(i: int) -> Seq<Tile>
    decreases i,
{
    if i <= 0 {
        Seq::empty()
    } else {
        let entry = distribution()[i - 1];
        standard_bag_prefix(i - 1) + Seq::new(entry.2 as nat, |k: int| Tile(entry.0, entry.1))
    }
}

/// The full unshuffled 98-tile bag.
pub open spec fn standard_bag() -> Seq<Tile> {
    standard_bag_prefix(26)
}

pub proof fn lemma_standard_bag_len()
    ensures
        standard_bag().len() == 98,
{
    assert(standard_bag_prefix(0).len() == 0);
    assert(standard_bag_prefix(1).len() == 9);
    assert(standard_bag_prefix(2).len() == 11);
    assert(standard_bag_prefix(3).len() == 13);
    assert(standard_bag_prefix(4).len() == 17);
    assert(standard_bag_prefix(5).len() == 29);
    assert(standard_bag_prefix(6).len() == 31);
    assert(standard_bag_prefix(7).len() == 34);
    assert(standard_bag_prefix(8).len() == 36);
    assert(standard_bag_prefix(9).len() == 45);
    assert(standard_bag_prefix(10).len() == 46);
    assert(standard_bag_prefix(11).len() == 47);
    assert(standard_bag_prefix(12).len() == 51);
    assert(standard_bag_prefix(13).len() == 53);
    assert(standard_bag_prefix(14).len() == 59);
    assert(standard_bag_prefix(15).len() == 67);
    assert(standard_bag_prefix(16).len() == 69);
    assert(standard_bag_prefix(17).len() == 70);
    assert(standard_bag_prefix(18).len() == 76);
    assert(standard_bag_prefix(19).len() == 80);
    assert(standard_bag_prefix(20).len() == 86);
    assert(standard_bag_prefix(21).len() == 90);
    assert(standard_bag_prefix(22).len() == 92);
    assert(standard_bag_prefix(23).len() == 94);
    assert(standard_bag_prefix(24).len() == 95);
    assert(standard_bag_prefix(25).len() == 97);
    assert(standard_bag_prefix(26).len() == 98);
}

/// One letter class of the distribution: the letter, its point value and
/// its number of copies.
fn letter_entry(i: usize) -> (r: (char, usize, usize))
    requires
        i < 26,
    ensures
        r == distribution()[i as int],
{
    match i {
        0 => ('A', 1, 9),
        1 => ('B', 3, 2),
        2 => ('C', 3, 2),
        3 => ('D', 2, 4),
        4 => ('E', 1, 12),
        5 => ('F', 4, 2),
        6 => ('G', 2, 3),
        7 => ('H', 4, 2),
        8 => ('I', 1, 9),
        9 => ('J', 8, 1),
        10 => ('K', 5, 1),
        11 => ('L', 1, 4),
        12 => ('M', 3, 2),
        13 => ('N', 1, 6),
        14 => ('O', 1, 8),
        15 => ('P', 3, 2),
        16 => ('Q', 10, 1),
        17 => ('R', 1, 6),
        18 => ('S', 1, 4),
        19 => ('T', 1, 6),
        20 => ('U', 1, 4),
        21 => ('V', 4, 2),
        22 => ('W', 4, 2),
        23 => ('X', 8, 1),
        24 => ('Y', 4, 2),
        _ => ('Z', 10, 1),
    }
}

/// Relies on rand's `SliceRandom::shuffle` (with `rand::rng()`): an
/// in-place Fisher-Yates permutation of the slice. Which order comes out is
/// random; every outcome holds the same tiles.
#[verifier::external_body]
fn shuffle_tiles(tiles: &mut Vec<Tile>)
    ensures
        final(tiles)@.to_multiset() == old(tiles)@.to_multiset(),
        final(tiles)@.len() == old(tiles)@.len(),
{
    tiles.shuffle(&mut rand::rng());
}

/// Total number of tiles held across all racks of a roster.
pub open spec fn racks_total(ps: Seq<Player>) -> int
    decreases ps.len(),
{
    if ps.len() == 0 {
        0
    } else {
        ps[0].tiles@.len() + racks_total(ps.drop_first())
    }
}

pub proof fn lemma_racks_total_push(ps: Seq<Player>, p: Player)
    ensures
        racks_total(ps.push(p)) == racks_total(ps) + p.tiles@.len(),
    decreases ps.len(),
{
    if ps.len() == 0 {
        assert(ps.push(p)[0] == p);
        assert(ps.push(p).drop_first() =~= Seq::<Player>::empty());
        assert(racks_total(Seq::<Player>::empty()) == 0);
    } else {
        assert(ps.push(p)[0] == ps[0]);
        assert(ps.push(p).drop_first() =~= ps.drop_first().push(p));
        lemma_racks_total_push(ps.drop_first(), p);
    }
}

pub proof fn lemma_racks_total_update(ps: Seq<Player>, j: int, p: Player)
    requires
        0 <= j < ps.len(),
    ensures
        racks_total(ps.update(j, p)) == racks_total(ps) - ps[j].tiles@.len() + p.tiles@.len(),
    decreases ps.len(),
{
    if j == 0 {
        assert(ps.update(0, p).drop_first() =~= ps.drop_first());
    } else {
        assert(ps.update(j, p).drop_first() =~= ps.drop_first().update(j - 1, p));
        lemma_racks_total_update(ps.drop_first(), j - 1, p);
    }
}

pub proof fn lemma_racks_total_remove(ps: Seq<Player>, j: int)
    requires
        0 <= j < ps.len(),
    ensures
        racks_total(ps.remove(j)) == racks_total(ps) - ps[j].tiles@.len(),
    decreases ps.len(),
{
    if j == 0 {
        assert(ps.remove(0) =~= ps.drop_first());
    } else {
        assert(ps.remove(j).drop_first() =~= ps.drop_first().remove(j - 1));
        lemma_racks_total_remove(ps.drop_first(), j - 1);
    }
}

/// A session of the game. `racks` of the abstract model live inside the
/// roster entries: each `Player` carries its own rack.
pub struct Game {
    pub board: Vec<Vec<char>>,
    pub tile_bag: Vec<Tile>,
    pub players: Vec<Player>,
    pub current_player_index: usize,
}

impl Game {
    /// Index of the roster entry carrying `id`; meaningful only under
    /// `has_player`, and unique under `wf`.
    pub open spec fn player_index(self, id: u128) -> int {
        choose|j: int| 0 <= j < self.players@.len() && self.players@[j].id == id
    }

    pub open spec fn has_player(self, id: u128) -> bool {
        exists|j: int| 0 <= j < self.players@.len() && self.players@[j].id == id
    }

    /// The rack currently held by the player carrying `id`.
    pub open spec fn rack_of(self, id: u128) -> Seq<Tile> {
        self.players@[self.player_index(id)].tiles@
    }

    /// Tiles still in the bag plus tiles held across all racks. A fresh
    /// session has 98 and every transition up to "started" preserves it.
    pub open spec fn tile_total(self) -> int {
        self.tile_bag@.len() + racks_total(self.players@)
    }

    pub open spec fn board_wf(self) -> bool {
        &&& self.board@.len() == BOARD_SIZE
        &&& forall|i: int| 0 <= i < self.board@.len() ==> (#[trigger] self.board@[i])@.len()
            == BOARD_SIZE
    }

    /// Everything except the roster is the same in both states.
    pub open spec fn same_but_roster(pre: Game, post: Game) -> bool {
        &&& post.tile_bag == pre.tile_bag
        &&& post.board == pre.board
        &&& post.current_player_index == pre.current_player_index
    }

    /// Session well-formedness: at most four players, all ids distinct,
    /// no rack over seven tiles, and a square board.
    pub open spec fn wf(self) -> bool {
        &&& self.players@.len() <= MAX_PLAYERS
        &&& forall|i: int, j: int|
            0 <= i < j < self.players@.len() ==> (#[trigger] self.players@[i]).id
                != (#[trigger] self.players@[j]).id
        &&& forall|i: int|
            0 <= i < self.players@.len() ==> (#[trigger] self.players@[i]).tiles@.len()
                <= RACK_SIZE
        &&& self.board_wf()
    }

    /// Everything `player_index` promises when the player is there.
    pub proof fn lemma_player_index(self, id: u128)
        requires
            self.wf(),
            self.has_player(id),
        ensures
            0 <= self.player_index(id) < self.players@.len(),
            self.players@[self.player_index(id)].id == id,
            forall|k: int|
                0 <= k < self.players@.len() && (#[trigger] self.players@[k]).id == id
                    ==> k == self.player_index(id),
    {
        let j = self.player_index(id);
        assert(0 <= j < self.players@.len() && self.players@[j].id == id);
    }

    /// A fresh Open session: empty roster, a freshly shuffled full bag of
    /// 98 tiles, the turn cursor at zero and a blank board.
    pub fn new() -> (g: Game)
        ensures
            g.wf(),
            g.players@.len() == 0,
            g.tile_bag@.len() == 98,
            g.tile_bag@.to_multiset() == standard_bag().to_multiset(),
            g.current_player_index == 0,
            g.tile_total() == 98,
            forall|i: int| 0 <= i < BOARD_SIZE ==> (#[trigger] g.board@[i])@ == Seq::new(
                BOARD_SIZE as nat,
                |c: int| ' ',
            ),
    {
        let mut board: Vec<Vec<char>> = Vec::new();
        let mut i: usize = 0;
        while i < BOARD_SIZE
            invariant
                i <= BOARD_SIZE,
                board@.len() == i,
                forall|r: int| 0 <= r < i ==> (#[trigger] board@[r])@ == Seq::new(
                    BOARD_SIZE as nat,
                    |c: int| ' ',
                ),
            decreases BOARD_SIZE - i,
        {
            let mut row: Vec<char> = Vec::new();
            let mut j: usize = 0;
            while j < BOARD_SIZE
                invariant
                    j <= BOARD_SIZE,
                    row@ =~= Seq::new(j as nat, |c: int| ' '),
                decreases BOARD_SIZE - j,
            {
                row.push(' ');
                proof {
                    assert(row@ =~= Seq::new((j + 1) as nat, |c: int| ' '));
                }
                j += 1;
            }
            board.push(row);
            i += 1;
        }
        let mut game = Game {
            board,
            tile_bag: Vec::new(),
            players: Vec::new(),
            current_player_index: 0,
        };
        game.init_tile_bag();
        game
    }

    /// Fills the bag with the standard 98-tile distribution and shuffles it.
    fn init_tile_bag(&mut self)
        ensures
            final(self).tile_bag@.to_multiset() == standard_bag().to_multiset(),
            final(self).tile_bag@.len() == 98,
            final(self).players == old(self).players,
            final(self).board == old(self).board,
            final(self).current_player_index == old(self).current_player_index,
    {
        let mut bag: Vec<Tile> = Vec::new();
        let mut i: usize = 0;
        while i < 26
            invariant
                i <= 26,
                bag@ == standard_bag_prefix(i as int),
            decreases 26 - i,
        {
            let entry: (char, usize, usize) = letter_entry(i);
            let letter: char = entry.0;
            let value: usize = entry.1;
            let count: usize = entry.2;
            let mut k: usize = 0;
            while k < count
                invariant
                    k <= count,
                    (letter, value, count) == distribution()[i as int],
                    i < 26,
                    bag@ == standard_bag_prefix(i as int) + Seq::new(
                        k as nat,
                        |q: int| Tile(letter, value),
                    ),
                decreases count - k,
            {
                bag.push(Tile(letter, value));
                proof {
                    assert(bag@ =~= standard_bag_prefix(i as int) + Seq::new(
                        (k + 1) as nat,
                        |q: int| Tile(letter, value),
                    ));
                }
                k += 1;
            }
            proof {
                assert(bag@ =~= standard_bag_prefix(i + 1));
            }
            i += 1;
        }
        proof {
            lemma_standard_bag_len();
        }
        shuffle_tiles(&mut bag);
        self.tile_bag = bag;
    }

    /// Index of the roster entry carrying `id`, if any.
    fn find_player(&self, id: u128) -> (r: Option<usize>)
        ensures
            match r {
                Some(j) => j < self.players@.len() && self.players@[j as int].id == id,
                None => !self.has_player(id),
            },
    {
        let mut i: usize = 0;
        while i < self.players.len()
            invariant
                i <= self.players@.len(),
                forall|k: int| 0 <= k < i ==> (#[trigger] self.players@[k]).id != id,
            decreases self.players@.len() - i,
        {
            if self.players[i].get_id() == id {
                return Some(i);
            }
            i += 1;
        }
        None
    }

    /// Whether this roster already lists the given player (by identity and
    /// name, the way roster equality sees players).
    pub fn is_player_registered(&self, player: &Player) -> (r: bool)
        ensures
            r == exists|j: int|
                0 <= j < self.players@.len() && (#[trigger] self.players@[j]).id == player.id
                    && self.players@[j].name@ == player.name@,
    {
        let mut i: usize = 0;
        while i < self.players.len()
            invariant
                i <= self.players@.len(),
                forall|k: int|
                    0 <= k < i ==> !((#[trigger] self.players@[k]).id == player.id
                        && self.players@[k].name@ == player.name@),
            decreases self.players@.len() - i,
        {
            if &self.players[i] == player {
                return true;
            }
            i += 1;
        }
        false
    }

    /// Admits a player into an Open session: rejected if the roster is full
    /// (four players) or already carries the same id; otherwise the roster
    /// gains the player, with an empty rack, at the end of the join order.
    pub fn register_player(&mut self, player: Player) -> (r: Result<(), Error>)
        requires
            old(self).wf(),
            player.tiles@.len() == 0,
        ensures
            final(self).wf(),
            final(self).tile_total() == old(self).tile_total(),
            old(self).players@.len() >= MAX_PLAYERS ==> r == Err::<(), Error>(
                Error::TooManyPlayers,
            ) && *final(self) == *old(self),
            old(self).players@.len() < MAX_PLAYERS && old(self).has_player(player.id) ==> r
                == Err::<(), Error>(Error::DuplicatePlayerId) && *final(self) == *old(self),
            old(self).players@.len() < MAX_PLAYERS && !old(self).has_player(player.id) ==> r
                == Ok::<(), Error>(()) && final(self).players@ == old(self).players@.push(player)
                && Game::same_but_roster(*old(self), *final(self)),
    {
        if self.players.len() >= MAX_PLAYERS {
            return Err(Error::TooManyPlayers);
        }
        if self.find_player(player.get_id()).is_some() {
            return Err(Error::DuplicatePlayerId);
        }
        proof {
            lemma_racks_total_push(self.players@, player);
        }
        self.players.push(player);
        Ok(())
    }

    /// Drops a player from the roster together with their rack; the rack's
    /// tiles leave the session with them.
    pub fn remove_player(&mut self, player_id: u128) -> (r: Result<(), Error>)
        requires
            old(self).wf(),
        ensures
            final(self).wf(),
            !old(self).has_player(player_id) ==> r == Err::<(), Error>(Error::PlayerNotRegistered)
                && *final(self) == *old(self),
            old(self).has_player(player_id) ==> r == Ok::<(), Error>(()) && final(self).players@
                == old(self).players@.remove(old(self).player_index(player_id))
                && Game::same_but_roster(*old(self), *final(self)),
            old(self).has_player(player_id) ==> final(self).tile_total() == old(self).tile_total()
                - old(self).rack_of(player_id).len(),
            !old(self).has_player(player_id) ==> final(self).tile_total()
                == old(self).tile_total(),
    {
        match self.find_player(player_id) {
            None => Err(Error::PlayerNotRegistered),
            Some(j) => {
                proof {
                    self.lemma_player_index(player_id);
                    lemma_racks_total_remove(self.players@, j as int);
                }
                self.players.remove(j);
                Ok(())
            },
        }
    }

    /// A snapshot copy of the player carrying `id`.
    pub fn get_player(&self, player_id: u128) -> (r: Result<Player, Error>)
        requires
            self.wf(),
        ensures
            match r {
                Ok(p) => self.has_player(player_id) && p.id == player_id && player_eqv(
                    p,
                    self.players@[self.player_index(player_id)],
                ),
                Err(e) => e == Error::PlayerNotRegistered && !self.has_player(player_id),
            },
    {
        match self.find_player(player_id) {
            None => Err(Error::PlayerNotRegistered),
            Some(j) => {
                proof {
                    self.lemma_player_index(player_id);
                }
                Ok(self.players[j].clone())
            },
        }
    }

    /// A snapshot copy of the whole roster, in join order.
    pub fn get_players(&self) -> (r: Vec<Player>)
        ensures
            players_match(r@, self.players@),
    {
        let mut r: Vec<Player> = Vec::new();
        let mut i: usize = 0;
        while i < self.players.len()
            invariant
                i <= self.players@.len(),
                r@.len() == i,
                forall|k: int| 0 <= k < i ==> player_eqv(#[trigger] r@[k], self.players@[k]),
            decreases self.players@.len() - i,
        {
            r.push(self.players[i].clone());
            i += 1;
        }
        r
    }

    /// The roster's player ids, in join order.
    pub fn get_player_ids(&self) -> (r: Vec<u128>)
        ensures
            r@.len() == self.players@.len(),
            forall|k: int| 0 <= k < r@.len() ==> r@[k] == (#[trigger] self.players@[k]).id,
    {
        let mut r: Vec<u128> = Vec::new();
        let mut i: usize = 0;
        while i < self.players.len()
            invariant
                i <= self.players@.len(),
                r@.len() == i,
                forall|k: int| 0 <= k < i ==> r@[k] == (#[trigger] self.players@[k]).id,
            decreases self.players@.len() - i,
        {
            r.push(self.players[i].get_id());
            i += 1;
        }
        r
    }

    /// Advances the turn cursor one step round the roster.
    pub fn next_turn(&mut self) -> (r: usize)
        requires
            old(self).players@.len() > 0,
            old(self).current_player_index < old(self).players@.len(),
        ensures
            r == next_turn_index(
                old(self).current_player_index as int,
                old(self).players@.len() as int,
            ),
            r < old(self).players@.len(),
            final(self).current_player_index == r,
            final(self).players == old(self).players,
            final(self).tile_bag == old(self).tile_bag,
            final(self).board == old(self).board,
            final(self).tile_total() == old(self).tile_total(),
    {
        let n: usize = self.players.len();
        assert(self.current_player_index < n);
        self.current_player_index = (self.current_player_index + 1) % n;
        self.current_player_index
    }

    /// All racks are empty, as in a session that has not started.
    pub open spec fn all_racks_empty(self) -> bool {
        forall|k: int|
            0 <= k < self.players@.len() ==> (#[trigger] self.players@[k]).tiles@.len() == 0
    }

    /// Moves the top tile of the bag onto the rack of the player carrying
    /// `player_id`. On any failure the session is left unchanged: in
    /// particular a full rack leaves the bag as it was, so no tile is ever
    /// silently lost.
    pub fn give_tile(&mut self, player_id: u128) -> (r: Result<(), Error>)
        requires
            old(self).wf(),
        ensures
            final(self).wf(),
            final(self).tile_total() == old(self).tile_total(),
            old(self).tile_bag@.len() == 0 ==> r == Err::<(), Error>(Error::NoMoreTiles)
                && *final(self) == *old(self),
            old(self).tile_bag@.len() > 0 && !old(self).has_player(player_id) ==> r == Err::<
                (),
                Error,
            >(Error::PlayerNotRegistered) && *final(self) == *old(self),
            old(self).tile_bag@.len() > 0 && old(self).has_player(player_id) && old(self).rack_of(
                player_id,
            ).len() >= RACK_SIZE ==> r == Err::<(), Error>(Error::PlayerHas7Tiles) && *final(self)
                == *old(self),
            old(self).tile_bag@.len() > 0 && old(self).has_player(player_id) && old(self).rack_of(
                player_id,
            ).len() < RACK_SIZE ==> ({
                let j = old(self).player_index(player_id);
                &&& r == Ok::<(), Error>(())
                &&& final(self).players@ == old(self).players@.update(j, final(self).players@[j])
                &&& final(self).players@[j].id == old(self).players@[j].id
                &&& final(self).players@[j].name == old(self).players@[j].name
                &&& final(self).players@[j].tiles@ == old(self).players@[j].tiles@.push(
                    old(self).tile_bag@.last(),
                )
                &&& final(self).tile_bag@ == old(self).tile_bag@.drop_last()
                &&& final(self).board == old(self).board
                &&& final(self).current_player_index == old(self).current_player_index
            }),
    {
        if self.tile_bag.len() == 0 {
            return Err(Error::NoMoreTiles);
        }
        match self.find_player(player_id) {
            None => Err(Error::PlayerNotRegistered),
            Some(j) => {
                proof {
                    self.lemma_player_index(player_id);
                }
                if self.players[j].get_number_of_tiles() >= RACK_SIZE {
                    return Err(Error::PlayerHas7Tiles);
                }
                let tile = match self.tile_bag.pop() {
                    Some(t) => t,
                    None => {
                        proof {
                            assert(false);
                        }
                        return Err(Error::NoMoreTiles);
                    },
                };
                let p = &mut self.players[j];
                match p.add_tile(tile) {
                    Ok(()) => {},
                    Err(e) => {
                        proof {
                            assert(false);
                        }
                        return Err(e);
                    },
                }
                proof {
                    lemma_racks_total_update(
                        old(self).players@,
                        j as int,
                        self.players@[j as int],
                    );
                    assert(self.players@ =~= old(self).players@.update(
                        j as int,
                        self.players@[j as int],
                    ));
                }
                Ok(())
            },
        }
    }

    /// Starts the session: requires at least two players; deals each player
    /// exactly seven tiles, one tile per player per round so that bag
    /// consumption is deterministic given the shuffle; returns each
    /// player's freshly dealt rack keyed by player id. On any failure the
    /// session is left unchanged -- no partial deal.
    pub fn start(&mut self) -> (r: Result<HashMap<u128, Vec<Tile>>, Error>)
        requires
            old(self).wf(),
        ensures
            final(self).wf(),
            final(self).tile_total() == old(self).tile_total(),
            old(self).players@.len() < 2 ==> r == Err::<HashMap<u128, Vec<Tile>>, Error>(
                Error::NotEnoughPlayers,
            ) && *final(self) == *old(self),
            old(self).players@.len() >= 2 && !old(self).all_racks_empty() ==> r == Err::<
                HashMap<u128, Vec<Tile>>,
                Error,
            >(Error::PlayerHas7Tiles) && *final(self) == *old(self),
            old(self).players@.len() >= 2 && old(self).all_racks_empty() && old(
                self,
            ).tile_bag@.len() < RACK_SIZE * old(self).players@.len() ==> r == Err::<
                HashMap<u128, Vec<Tile>>,
                Error,
            >(Error::NoMoreTiles) && *final(self) == *old(self),
            old(self).players@.len() >= 2 && old(self).all_racks_empty() && old(
                self,
            ).tile_bag@.len() >= RACK_SIZE * old(self).players@.len() ==> ({
                let n = old(self).players@.len() as int;
                let bag0 = old(self).tile_bag@;
                &&& r is Ok
                &&& final(self).players@.len() == n
                &&& forall|k: int|
                    0 <= k < n ==> (#[trigger] final(self).players@[k]).id
                        == old(self).players@[k].id && final(self).players@[k].name
                        == old(self).players@[k].name && final(self).players@[k].tiles@
                        == dealt_rack(bag0, n, k)
                &&& final(self).tile_bag@ == bag0.take(bag0.len() - RACK_SIZE * n)
                &&& final(self).board == old(self).board
                &&& final(self).current_player_index == old(self).current_player_index
                &&& forall|k: int|
                    0 <= k < n ==> r->Ok_0@.contains_key(
                        (#[trigger] old(self).players@[k]).id,
                    ) && r->Ok_0@[old(self).players@[k].id]@ == dealt_rack(bag0, n, k)
                &&& forall|key: u128| #[trigger]
                    r->Ok_0@.contains_key(key) ==> old(self).has_player(key)
            }),
    {
        if self.players.len() < 2 {
            return Err(Error::NotEnoughPlayers);
        }
        let n: usize = self.players.len();
        assert(n <= MAX_PLAYERS);
        let mut j: usize = 0;
        while j < n
            invariant
                j <= n,
                *self == *old(self),
                self.wf(),
                2 <= n,
                n == self.players@.len(),
                forall|k: int| 0 <= k < j ==> (#[trigger] self.players@[k]).tiles@.len() == 0,
            decreases n - j,
        {
            if self.players[j].get_number_of_tiles() > 0 {
                return Err(Error::PlayerHas7Tiles);
            }
            j += 1;
        }
        let target: usize = RACK_SIZE * n;
        if self.tile_bag.len() < target {
            return Err(Error::NoMoreTiles);
        }
        let ids = self.get_player_ids();
        let ghost pre = *self;
        proof {
            assert(pre == *old(self));
        }
        let ghost bag0 = self.tile_bag@;
        let ghost len0 = self.tile_bag@.len() as int;
        let mut dealt: usize = 0;
        let mut round: usize = 0;
        while round < RACK_SIZE
            invariant
                round <= RACK_SIZE,
                dealt == round * (n as int),
                n == pre.players@.len(),
                2 <= n <= MAX_PLAYERS,
                self.wf(),
                pre.wf(),
                self.players@.len() == n,
                ids@.len() == n,
                forall|k: int| 0 <= k < n ==> ids@[k] == (#[trigger] pre.players@[k]).id,
                forall|k: int|
                    0 <= k < n ==> (#[trigger] self.players@[k]).id == pre.players@[k].id && (
                    #[trigger] self.players@[k]).name == pre.players@[k].name,
                forall|k: int|
                    0 <= k < n ==> (#[trigger] self.players@[k]).tiles@ == dealt_prefix(
                        bag0,
                        n as int,
                        k,
                        round as int,
                    ),
                bag0.len() == len0,
                len0 >= RACK_SIZE * n,
                self.tile_bag@ == bag0.take(len0 - dealt),
                self.tile_total() == pre.tile_total(),
                self.board == pre.board,
                self.current_player_index == pre.current_player_index,
            decreases RACK_SIZE - round,
        {
            let mut j: usize = 0;
            while j < n
                invariant
                    j <= n,
                    round < RACK_SIZE,
                    dealt == round * (n as int) + j,
                    n == pre.players@.len(),
                    2 <= n <= MAX_PLAYERS,
                    self.wf(),
                    pre.wf(),
                    self.players@.len() == n,
                    ids@.len() == n,
                    forall|k: int| 0 <= k < n ==> ids@[k] == (#[trigger] pre.players@[k]).id,
                    forall|k: int|
                        0 <= k < n ==> (#[trigger] self.players@[k]).id == pre.players@[k].id && (
                        #[trigger] self.players@[k]).name == pre.players@[k].name,
                    forall|k: int|
                        0 <= k < j ==> (#[trigger] self.players@[k]).tiles@ == dealt_prefix(
                            bag0,
                            n as int,
                            k,
                            round as int + 1,
                        ),
                    forall|k: int|
                        j <= k < n ==> (#[trigger] self.players@[k]).tiles@ == dealt_prefix(
                            bag0,
                            n as int,
                            k,
                            round as int,
                        ),
                    bag0.len() == len0,
                    len0 >= RACK_SIZE * n,
                    self.tile_bag@ == bag0.take(len0 - dealt),
                    self.tile_total() == pre.tile_total(),
                    self.board == pre.board,
                    self.current_player_index == pre.current_player_index,
                decreases n - j,
            {
                proof {
                    assert(dealt < RACK_SIZE * n) by (nonlinear_arith)
                        requires
                            dealt == round * (n as int) + j,
                            round < RACK_SIZE,
                            j < n,
                            0 < n,
                    ;
                    assert(self.has_player(ids@[j as int])) by {
                        assert(self.players@[j as int].id == ids@[j as int]);
                    }
                    self.lemma_player_index(ids@[j as int]);
                    assert(self.player_index(ids@[j as int]) == j as int) by {
                        assert(self.players@[j as int].id == ids@[j as int]);
                    }
                    assert(self.rack_of(ids@[j as int]).len() == round);
                }
                let ghost before = *self;
                let res = self.give_tile(ids[j]);
                match res {
                    Err(e) => {
                        proof {
                            assert(false);
                        }
                        return Err(e);
                    },
                    Ok(_) => {},
                }
                proof {
                    // the tile that was dealt is the one `dealt_prefix` names
                    assert(before.tile_bag@.last() == bag0[len0 - dealt - 1]);
                    assert(self.players@[j as int].tiles@ =~= dealt_prefix(
                        bag0,
                        n as int,
                        j as int,
                        round as int + 1,
                    ));
                    assert(self.tile_bag@ =~= bag0.take(len0 - (dealt + 1)));
                }
                dealt += 1;
                j += 1;
            }
            proof {
                assert((round + 1) * (n as int) == round * (n as int) + n) by (nonlinear_arith);
            }
            round += 1;
        }
        let mut racks: HashMap<u128, Vec<Tile>> = HashMap::new();
        let mut j: usize = 0;
        while j < n
            invariant
                j <= n,
                self.wf(),
                n == self.players@.len(),
                forall|k: int|
                    0 <= k < j ==> racks@.contains_key((#[trigger] self.players@[k]).id)
                        && racks@[self.players@[k].id]@ == self.players@[k].tiles@,
                forall|key: u128| #[trigger]
                    racks@.contains_key(key) ==> exists|k: int|
                        0 <= k < j && (#[trigger] self.players@[k]).id == key,
            decreases n - j,
        {
            let p = self.players[j].clone();
            let pid: u128 = p.get_id();
            racks.insert(pid, p.tiles);
            j += 1;
        }
        proof {
            assert forall|k: int| 0 <= k < n implies racks@.contains_key(
                (#[trigger] pre.players@[k]).id,
            ) && racks@[pre.players@[k].id]@ == self.players@[k].tiles@ by {
                assert(pre.players@[k].id == self.players@[k].id);
            }
        }
        Ok(racks)
    }
}

/// One step of the turn cursor: the next index round a roster of size `k`.
pub open spec fn next_turn_index(i: int, k: int) -> int {
    (i + 1) % k
}

/// Where the turn cursor stands after `times` steps from `i`, round a
/// roster of size `k`.
pub open spec fn turn_after(i: int, k: int, times: nat) -> int
    decreases times,
{
    if times == 0 {
        i
    } else {
        next_turn_index(turn_after(i, k, (times - 1) as nat), k)
    }
}

/// After `times` steps from a valid cursor, the cursor stands at
/// `(i + times) % k`.
pub proof fn lemma_turn_after(i: int, k: int, times: nat)
    requires
        0 <= i < k,
    ensures
        turn_after(i, k, times) == (i + times) % k,
    decreases times,
{
    if times == 0 {
        vstd::arithmetic::div_mod::lemma_small_mod(i as nat, k as nat);
    } else {
        lemma_turn_after(i, k, (times - 1) as nat);
        vstd::arithmetic::div_mod::lemma_add_mod_noop_right(1int, i + times - 1, k);
    }
}

/// Law: the turn order cycles. For a roster of size `k`, advancing the turn
/// `k` times returns the cursor to where it began.
pub proof fn lemma_next_turn_cycles(i: int, k: int)
    requires
        0 <= i < k,
    ensures
        turn_after(i, k, k as nat) == i,
{
    lemma_turn_after(i, k, k as nat);
    vstd::arithmetic::div_mod::lemma_mod_add_multiples_vanish(i, k);
    vstd::arithmetic::div_mod::lemma_small_mod(i as nat, k as nat);
}

/// Law: a well-formed session's roster holds at most four players, all of
/// their ids are distinct, and no rack holds more than seven tiles.
pub proof fn lemma_roster_bounds(g: Game)
    requires
        g.wf(),
    ensures
        g.players@.len() <= 4,
        forall|i: int, j: int|
            0 <= i < j < g.players@.len() ==> (#[trigger] g.players@[i]).id != (
            #[trigger] g.players@[j]).id,
        forall|i: int| 0 <= i < g.players@.len() ==> (#[trigger] g.players@[i]).tiles@.len() <= 7,
{
}

/// The first `rounds` tiles that the round-robin deal hands to the player
/// at roster position `j` out of `n`, drawing from the tail of `bag`.
pub open spec fn dealt_prefix(bag: Seq<Tile>, n: int, j: int, rounds: int) -> Seq<Tile> {
    Seq::new(rounds as nat, |q: int| bag[bag.len() - 1 - (q * n + j)])
}

/// The full seven-tile rack that the deal hands to roster position `j`.
pub open spec fn dealt_rack(bag: Seq<Tile>, n: int, j: int) -> Seq<Tile> {
    dealt_prefix(bag, n, j, RACK_SIZE as int)
}

} // verus!

