//! Verified core of a two-player tic-tac-toe session host.
//!
//! The library holds the game state machine (board, turns, win detection),
//! the line protocol that clients speak, and the session registry that
//! tracks the two participants' outbound channels and broadcasts frames.
//! The network transport around it is ordinary async plumbing and lives
//! outside the library.

pub mod game;
pub mod protocol;
pub mod registry;
