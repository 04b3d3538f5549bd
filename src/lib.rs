//! Pre-play setup of a four-player partnership card game: cards and decks,
//! a lobby that balances teams, the seating draw and the pass/play auction.

pub mod card;
pub mod deck;
pub mod hand;
pub mod errors;
pub mod user;
pub mod game;
