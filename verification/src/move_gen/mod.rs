//! Move generation: the attacks of each kind of piece, and the legal moves of a position.
use vstd::prelude::*;

use arrayvec::ArrayVec;

use crate::bitboard::BitBoard;
use crate::position::{Move, Piece, Position};

pub mod all_pieces;
pub mod hyperbola_quintessence;
pub mod leaping_pieces;
pub mod magic_bitboard;
pub mod masks;

use self::all_pieces::AllPiecesMoveGen;
use self::hyperbola_quintessence::HyperbolaQuintessence;
use self::leaping_pieces::LeapingPiecesMoveGen;

verus! {

/// `arrayvec::ArrayVec`, a vector of at most `CAP` elements stored inline.
#[verifier::external_type_specification]
#[verifier::external_body]
#[verifier::reject_recursive_types(T)]
pub struct ExArrayVec<T, const CAP: usize>(ArrayVec<T, CAP>);

/// The moves a move list holds, in order.
pub uninterp spec fn move_list_contents(v: ArrayVec<Move, 218>) -> Seq<Move>;

/// `ArrayVec::new` from arrayvec: an empty list.
#[verifier::external_body]
fn move_list_new() -> (r: ArrayVec<Move, 218>)
    ensures
        move_list_contents(r) == Seq::<Move>::empty(),
{
    ArrayVec::new()
}

/// `ArrayVec::try_push` from arrayvec: appends the move when the list holds fewer than
/// 218, and otherwise leaves the list as it was and reports it full.
#[verifier::external_body]
fn move_list_try_push(v: &mut ArrayVec<Move, 218>, m: Move) -> (r: bool)
    ensures
        move_list_contents(*old(v)).len() < 218 ==> r && move_list_contents(*final(v)) == move_list_contents(*old(v)).push(m),
        move_list_contents(*old(v)).len() >= 218 ==> !r && move_list_contents(*final(v)) == move_list_contents(*old(v)),
{
    v.try_push(m).is_ok()
}

/// The engine's move generator: every piece's legal moves, and the pieces giving check.
pub struct MoveGen {
    pub all_pieces: AllPiecesMoveGen,
}

impl MoveGen {
    /// The generator's tables are built.
    pub open spec fn wf(&self) -> bool {
        self.all_pieces.wf()
    }

    /// Builds the tables of every kind of piece.
    pub fn new() -> (r: MoveGen)
        ensures
            r.wf(),
    {
        MoveGen { all_pieces: AllPiecesMoveGen::new(LeapingPiecesMoveGen::new(), HyperbolaQuintessence::new()) }
    }

    /// The legal moves of the side to move, as a list of at most 218, the most any
    /// position allows; moves past the 218th are not kept.
    pub fn gen_moves(&self, position: &Position) -> (r: ArrayVec<Move, 218>)
        requires
            self.wf(),
            position.pieces.board(Piece::King, position.state.to_move).0 != 0,
        ensures
            move_list_contents(r) == if self.all_pieces.moves_spec(*position).len() <= 218 {
                self.all_pieces.moves_spec(*position)
            } else {
                self.all_pieces.moves_spec(*position).take(218)
            },
    {
        let moves = self.all_pieces.gen_moves(position);
        let mut list = move_list_new();
        let mut i: usize = 0;
        while i < moves.len() && i < 218
            invariant
                i <= moves.len(),
                i <= 218,
                move_list_contents(list) == moves@.take(i as int),
            decreases moves.len() - i,
        {
            let pushed = move_list_try_push(&mut list, moves[i]);
            proof {
                assert(moves@.take(i + 1) =~= moves@.take(i as int).push(moves@[i as int]));
            }
            i += 1;
        }
        proof {
            if moves.len() <= 218 {
                assert(moves@.take(i as int) =~= moves@);
            }
        }
        list
    }

    /// The pieces giving check to the side to move.
    pub fn gen_checkers(&self, position: &Position) -> (r: BitBoard)
        requires
            self.wf(),
            position.pieces.board(Piece::King, position.state.to_move).0 != 0,
        ensures
            r.0 == self.all_pieces.checkers_word(*position),
    {
        self.all_pieces.get_checkers(position)
    }
}

} // verus!
