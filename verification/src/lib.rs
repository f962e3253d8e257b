//! A chess-protocol relay library: it speaks the line-oriented engine
//! protocol to an upstream client, tracks the game position, and chooses
//! moves by a pluggable strategy, consulting a subordinate engine where the
//! strategy calls for it. Board legality and move generation come from the
//! `chess` crate; all protocol text handling and decision logic is verified.

pub mod board;
pub mod engine;
pub mod game;
pub mod msg;
pub mod notation;
pub mod parse;
pub mod wire;
