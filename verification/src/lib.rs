//! A chess engine's board representation, move generation and search, with
//! their contracts proved.
pub mod bits;
pub mod bitboard;
pub mod text;
pub mod position;
pub mod evaluation;
pub mod transposition_table;
pub mod move_gen;
pub mod perft;
pub mod algebraic_notation;
pub mod search;
pub mod quiescence;
pub mod uci;
pub mod session;
pub mod uci_option;
