//! Rule engine for a two-player game of Speed: the card model, the game
//! state machine with its mathematical model, and the session decisions
//! that a connection handler makes around it.

pub mod card;
pub mod game;
mod identity;
pub mod laws;
pub mod model;
pub mod session;
mod shuffle;
