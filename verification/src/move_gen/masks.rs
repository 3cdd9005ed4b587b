//! The lines through each square: its file, rank, diagonal and anti-diagonal, without the
//! square itself.
use vstd::prelude::*;

use crate::bitboard::{BitBoard, Square};

verus! {

/// A kind of line through a square, or the square itself.
#[derive(Clone, Copy, Debug, PartialEq, Eq, Structural)]
pub enum MaskType {
    Bit,
    File,
    Rank,
    Diagonal,
    AntiDiagonal,
}

/// Square `t` is on the line of kind `kind` through `sq`, other than `sq` itself (for
/// `Bit`: `t` is `sq`). The diagonal runs from the upper left to the lower right, the
/// anti-diagonal from the lower left to the upper right.
pub open spec fn on_line(kind: MaskType, sq: Square, t: Square) -> bool {
    match kind {
        MaskType::Bit => t == sq,
        MaskType::File => t != sq && t.file() == sq.file(),
        MaskType::Rank => t != sq && t.rank() == sq.rank(),
        MaskType::Diagonal => t != sq && t.rank() + t.file() == sq.rank() + sq.file(),
        MaskType::AntiDiagonal => t != sq && t.rank() - t.file() == sq.rank() - sq.file(),
    }
}

/// The lines through one square.
#[derive(Clone, Copy, Debug, PartialEq, Eq, Structural)]
pub struct SquareMasks {
    pub bit: BitBoard,
    pub file: BitBoard,
    pub rank: BitBoard,
    pub diag: BitBoard,
    pub anti_diag: BitBoard,
}

impl SquareMasks {
    /// The mask of the kind.
    pub open spec fn of(self, kind: MaskType) -> BitBoard {
        match kind {
            MaskType::Bit => self.bit,
            MaskType::File => self.file,
            MaskType::Rank => self.rank,
            MaskType::Diagonal => self.diag,
            MaskType::AntiDiagonal => self.anti_diag,
        }
    }

    /// Each mask holds the squares of its line through `sq`.
    pub open spec fn holds(self, sq: Square) -> bool {
        forall|kind: MaskType, t: Square| #[trigger] self.of(kind).has(t) == on_line(kind, sq, t)
    }

    /// The mask of the kind.
    pub fn get(&self, mask_type: MaskType) -> (r: BitBoard)
        ensures
            r == self.of(mask_type),
    {
        match mask_type {
            MaskType::Bit => self.bit,
            MaskType::File => self.file,
            MaskType::Rank => self.rank,
            MaskType::Diagonal => self.diag,
            MaskType::AntiDiagonal => self.anti_diag,
        }
    }
}

/// The lines through every square.
pub struct MasksList(pub Vec<SquareMasks>);

impl MasksList {
    /// There are 64 entries, each holding the lines through its square.
    pub open spec fn wf(&self) -> bool {
        &&& self.0.len() == 64
        &&& forall|i: int| 0 <= i < 64 ==> (#[trigger] self.0@[i]).holds(Square::spec_from_idx(i))
    }

    /// The lines through the square.
    pub fn get(&self, square: Square) -> (r: &SquareMasks)
        requires
            self.wf(),
        ensures
            r.holds(square),
            *r == self.0@[square.idx()],
    {
        proof {
            Square::lemma_from_idx(square.idx());
            Square::lemma_idx_injective(square, Square::spec_from_idx(square.idx()));
        }
        &self.0[square.to_u8() as usize]
    }

    /// Builds the lines through every square.
    pub fn new() -> (r: MasksList)
        ensures
            r.wf(),
    {
        calc_masks_list()
    }
}

/// The mask of one kind of line through the square.
fn line_mask(kind: MaskType, sq: Square) -> (r: BitBoard)
    ensures
        forall|t: Square| #[trigger] r.has(t) == on_line(kind, sq, t),
{
    let mut bb = BitBoard::empty();
    let (sq_rank, sq_file) = sq.to_rank_file();
    let mut i: u8 = 0;
    while i < 64
        invariant
            i <= 64,
            sq_rank == sq.rank(),
            sq_file == sq.file(),
            forall|t: Square| #[trigger] bb.has(t) == (t.idx() < i && on_line(kind, sq, t)),
        decreases 64 - i,
    {
        let t = Square::from_u8(i);
        let (t_rank, t_file) = t.to_rank_file();
        let on = match kind {
            MaskType::Bit => t == sq,
            MaskType::File => t != sq && t_file == sq_file,
            MaskType::Rank => t != sq && t_rank == sq_rank,
            MaskType::Diagonal => t != sq && t_rank + t_file == sq_rank + sq_file,
            MaskType::AntiDiagonal => t != sq && t_rank + sq_file == sq_rank + t_file,
        };
        let ghost old_bb = bb;
        if on {
            bb.set_square(t);
        }
        proof {
            assert forall|u: Square| #[trigger] bb.has(u) == (u.idx() < i + 1 && on_line(kind, sq, u)) by {
                Square::lemma_idx_injective(u, t);
            }
        }
        i += 1;
    }
    proof {
        assert forall|t: Square| #[trigger] bb.has(t) == on_line(kind, sq, t) by {
            Square::lemma_idx_injective(t, t);
        }
    }
    bb
}

/// The lines through every square, square by square.
pub fn calc_masks_list() -> (r: MasksList)
    ensures
        r.wf(),
{
    let mut list: Vec<SquareMasks> = Vec::new();
    let mut idx: u8 = 0;
    while idx < 64
        invariant
            idx <= 64,
            list.len() == idx,
            forall|i: int| 0 <= i < idx ==> (#[trigger] list@[i]).holds(Square::spec_from_idx(i)),
        decreases 64 - idx,
    {
        let sq = Square::from_u8(idx);
        proof {
            Square::lemma_from_idx(idx as int);
            Square::lemma_idx_injective(sq, Square::spec_from_idx(idx as int));
        }
        let m = SquareMasks {
            bit: line_mask(MaskType::Bit, sq),
            file: line_mask(MaskType::File, sq),
            rank: line_mask(MaskType::Rank, sq),
            diag: line_mask(MaskType::Diagonal, sq),
            anti_diag: line_mask(MaskType::AntiDiagonal, sq),
        };
        proof {
            assert forall|kind: MaskType, t: Square| #[trigger] m.of(kind).has(t) == on_line(kind, sq, t) by {
                match kind {
                    MaskType::Bit => {},
                    MaskType::File => {},
                    MaskType::Rank => {},
                    MaskType::Diagonal => {},
                    MaskType::AntiDiagonal => {},
                }
            }
        }
        list.push(m);
        idx += 1;
    }
    MasksList(list)
}

/// Splits a bishop's attacks into the part on its diagonal and the part on its
/// anti-diagonal.
pub fn split_bishop_ray(masks: &MasksList, bishop_ray: BitBoard, start_square: Square) -> (r: (BitBoard, BitBoard))
    requires
        masks.wf(),
    ensures
        forall|t: Square| #[trigger] r.0.has(t) == (bishop_ray.has(t) && on_line(MaskType::Diagonal, start_square, t)),
        forall|t: Square| #[trigger] r.1.has(t) == (bishop_ray.has(t) && on_line(MaskType::AntiDiagonal, start_square, t)),
{
    broadcast use crate::bits::group_bits;

    let m = masks.get(start_square);
    let diag = bishop_ray.const_bit_and(m.get(MaskType::Diagonal));
    let anti_diag = bishop_ray.const_bit_and(m.get(MaskType::AntiDiagonal));
    proof {
        assert forall|t: Square| #[trigger] diag.has(t) == (bishop_ray.has(t) && on_line(MaskType::Diagonal, start_square, t)) by {
            assert(m.of(MaskType::Diagonal).has(t) == on_line(MaskType::Diagonal, start_square, t));
        }
        assert forall|t: Square| #[trigger] anti_diag.has(t) == (bishop_ray.has(t) && on_line(MaskType::AntiDiagonal, start_square, t)) by {
            assert(m.of(MaskType::AntiDiagonal).has(t) == on_line(MaskType::AntiDiagonal, start_square, t));
        }
    }
    (diag, anti_diag)
}

} // verus!
