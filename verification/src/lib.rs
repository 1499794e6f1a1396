//! Coordination core for a Scrabble-like tile game: each session holds a
//! roster of players, a shuffled tile bag and per-player racks; a registry
//! keyed by opaque tokens owns all sessions; and a single-writer event step
//! applies every request to the registry and produces the replies and
//! broadcasts to send out.
use vstd::prelude::*;

pub mod events;
pub mod game;
pub mod manager;
pub mod player;
pub mod response;

verus! {

/// A letter tile: the letter and its point value. Immutable once created.
#[derive(Copy, Clone, PartialEq, Eq, Structural, Debug)]
pub struct Tile(pub char, pub usize);

/// Everything that can go wrong while managing sessions. All of these are
/// recoverable: they are returned to the requester as data, never raised.
#[derive(Copy, Clone, PartialEq, Eq, Structural, Debug)]
pub enum Error {
    NotEnoughPlayers,
    TooManyPlayers,
    DuplicatePlayerId,
    PlayerNotRegistered,
    NoMoreTiles,
    PlayerHas7Tiles,
    GameNotFound,
}

/// The description shown to a client for each error kind.
pub open spec fn error_message(e: Error) -> Seq<char> {
    match e {
        Error::NotEnoughPlayers => "Not enough players"@,
        Error::TooManyPlayers => "Too many players"@,
        Error::DuplicatePlayerId => "Duplicate player UUID"@,
        Error::PlayerNotRegistered => "Player is not registered in this game"@,
        Error::NoMoreTiles => "No more tiles in the bag"@,
        Error::PlayerHas7Tiles => "Player already has 7 tiles"@,
        Error::GameNotFound => "Game not found with this UUID"@,
    }
}

impl Error {
    /// Human-readable form of the error, as sent over the wire.
    pub fn message(&self) -> (r: &'static str)
        ensures
            r@ == error_message(*self),
    {
        match self {
            Error::NotEnoughPlayers => "Not enough players",
            Error::TooManyPlayers => "Too many players",
            Error::DuplicatePlayerId => "Duplicate player UUID",
            Error::PlayerNotRegistered => "Player is not registered in this game",
            Error::NoMoreTiles => "No more tiles in the bag",
            Error::PlayerHas7Tiles => "Player already has 7 tiles",
            Error::GameNotFound => "Game not found with this UUID",
        }
    }
}

} // verus!
