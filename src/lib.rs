//! Pieces of a chess-like game that carry friendships, and a teller that
//! writes short descriptions of them.
pub mod board;
pub mod common;
pub mod friends;
pub mod pieces;
mod random;
pub mod teller;
mod text;
