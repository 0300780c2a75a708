//! A verified core for a turn-based, multi-player draw-and-discard card game.
//!
//! The crate covers the card model (encoding, point values), the per-match
//! turn state machine (deck, hands, discard piles, phases, scoring, win
//! determination), the session layer that masks each participant's view of
//! shared state, and the session registry. Transport, routing and process
//! bootstrap live outside the library.

pub mod card;
pub mod config;
pub mod errors;
pub mod game;
pub mod messages;
pub mod session;
pub mod utils;
