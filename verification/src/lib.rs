//! A chess position as a value: sixty-four squares and the state of the game,
//! read from the compact one-line notation and drawn as coloured text.

pub mod board;
pub mod error;
pub mod notation;
pub mod piece;
pub mod placement;
pub mod render;
