//! Game-state core of a multiplayer bingo server: win detection on square
//! boards, board reshaping, the change registry that tracks which games
//! changed, and the per-connection synchronisation state machine.

pub mod error;
pub mod win;
pub mod body;
pub mod board;
pub mod registry;
pub mod session;
pub mod players;
pub mod fields;
pub mod templates;
