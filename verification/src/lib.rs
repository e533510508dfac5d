//! A rules engine and move-search core for chess on an 8x8 board.
//!
//! The crate is organised leaf-first:
//! - [`game::board`] holds the primitive value types (squares, pieces,
//!   colors, moves) and the complete position record, with its accessors;
//! - [`game::fen`] builds a position from Forsyth-style notation;
//! - [`game::rules`] applies moves to a position and detects attacked
//!   squares;
//! - [`game::moves`] generates pseudo-legal and legal moves and converts
//!   moves to and from their short text form;
//! - [`search`] scores positions and picks a best move by a depth-limited
//!   alpha-beta search over the move generator.

pub mod game;
pub mod search;
