//! A sliding-piece move generator meant to look moves up by magic numbers, whose tables
//! are not built yet.
use vstd::prelude::*;

use crate::bitboard::{BitBoard, Square};
use crate::position::Piece;

verus! {

/// The magic-number generator for sliding pieces; without its tables it finds no move.
#[derive(Clone, Copy, Debug, PartialEq, Eq, Structural)]
pub struct MagicBitboard;

impl MagicBitboard {
    /// The moves of a sliding piece: none, as no table is built.
    pub fn gen_moves(&self, piece: Piece, square: Square, occupancy: BitBoard) -> (r: BitBoard)
        ensures
            r.0 == 0,
    {
        BitBoard::empty()
    }
}

} // verus!
