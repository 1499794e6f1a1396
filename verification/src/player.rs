//! A participant in one session: identity, display name, and the rack of up
//! to seven tiles held once the session has started.
use vstd::prelude::*;

use crate::{Error, Tile};

verus! {

#[derive(Debug)]
pub struct Player {
    pub id: u128,
    pub name: String,
    pub tiles: Vec<Tile>,
}

/// The two values describe the same player in the same state: same identity,
/// same name, same rack contents.
pub open spec fn player_eqv(a: Player, b: Player) -> bool {
    a.id == b.id && a.name@ == b.name@ && a.tiles@ == b.tiles@
}

/// Pointwise `player_eqv` over two rosters.
pub open spec fn players_match(a: Seq<Player>, b: Seq<Player>) -> bool {
    a.len() == b.len() && (forall|i: int| 0 <= i < a.len() ==> player_eqv(a[i], b[i]))
}

impl PartialEq for Player {
    /// Equality is by identity and name, the way the roster sees a player;
    /// the rack takes no part in it.
    fn eq(&self, other: &Self) -> (r: bool) {
        self.id == other.id && self.name == other.name
    }
}

impl vstd::std_specs::cmp::PartialEqSpecImpl for Player {
    open spec fn obeys_eq_spec() -> bool {
        true
    }

    open spec fn eq_spec(&self, other: &Self) -> bool {
        self.id == other.id && self.name@ == other.name@
    }
}

impl Clone for Player {
    fn clone(&self) -> (r: Self)
        ensures
            player_eqv(r, *self),
    {
        let mut tiles: Vec<Tile> = Vec::new();
        let mut i: usize = 0;
        while i < self.tiles.len()
            invariant
                i <= self.tiles@.len(),
                tiles@ == self.tiles@.take(i as int),
            decreases self.tiles@.len() - i,
        {
            tiles.push(self.tiles[i]);
            proof {
                assert(tiles@ =~= self.tiles@.take(i + 1));
            }
            i += 1;
        }
        proof {
            assert(tiles@ =~= self.tiles@);
        }
        Player { id: self.id, name: self.name.clone(), tiles }
    }
}

impl Player {
    pub fn new(id: u128, name: &str) -> (p: Player)
        ensures
            p.id == id,
            p.name@ == name@,
            p.tiles@ == Seq::<Tile>::empty(),
    {
        Player { id, name: name.to_string(), tiles: Vec::new() }
    }

    /// Whether this player already holds the given tile (at least once).
    pub fn has_tile(&self, tile: &Tile) -> (r: bool)
        ensures
            r == self.tiles@.contains(*tile),
    {
        let mut i: usize = 0;
        while i < self.tiles.len()
            invariant
                i <= self.tiles@.len(),
                forall|k: int| 0 <= k < i ==> self.tiles@[k] != *tile,
            decreases self.tiles@.len() - i,
        {
            if self.tiles[i] == *tile {
                return true;
            }
            i += 1;
        }
        false
    }

    /// Adds one drawn tile to the rack; a full rack of seven rejects the
    /// tile instead of silently dropping it.
    pub fn add_tile(&mut self, tile: Tile) -> (r: Result<(), Error>)
        requires
            old(self).tiles@.len() <= 7,
        ensures
            old(self).tiles@.len() == 7 ==> r == Err::<(), Error>(Error::PlayerHas7Tiles)
                && *final(self) == *old(self),
            old(self).tiles@.len() < 7 ==> r == Ok::<(), Error>(())
                && final(self).tiles@ == old(self).tiles@.push(tile)
                && final(self).id == old(self).id
                && final(self).name == old(self).name,
    {
        if self.tiles.len() == 7 {
            return Err(Error::PlayerHas7Tiles);
        }
        self.tiles.push(tile);
        Ok(())
    }

    pub fn get_number_of_tiles(&self) -> (r: usize)
        ensures
            r == self.tiles@.len(),
    {
        self.tiles.len()
    }

    pub fn get_name(&self) -> (r: &str)
        ensures
            r@ == self.name@,
    {
        self.name.as_str()
    }

    pub fn get_id(&self) -> (r: u128)
        ensures
            r == self.id,
    {
        self.id
    }
}

} // verus!
