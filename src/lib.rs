//! A chess rules engine: board representation, attack and pin detection,
//! legal move generation, move application and FEN encoding and decoding.

pub mod piece;
pub mod board;
pub mod attack;
pub mod pin;
pub mod moves;
pub mod apply;
pub mod fen;
pub mod decode;
pub mod laws;
pub mod roundtrip;
