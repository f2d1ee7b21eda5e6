//! A bitboard chess rules engine with a depth-limited alpha-beta search.
pub mod apply;
pub mod bits;
pub mod board;
pub mod fen;
pub mod game;
pub mod laws;
pub mod legal;
pub mod minimax;
pub mod movement;
pub mod pieces;
pub mod position;
pub mod printer;
pub mod search;
