//! The game model: board primitives, notation parsing, move application
//! and move generation.

pub mod board;
pub mod fen;
pub mod moves;
pub mod rules;
