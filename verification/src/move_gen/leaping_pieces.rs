//! Moves of the pieces that leap: knights, kings, and pawns' pushes and captures, looked
//! up in tables built once.
use vstd::prelude::*;

use crate::bitboard::{dir_lists, shift_val, shifts_union, BitBoard, Direction, Square};
use crate::position::{Piece, Side};

verus! {

/// The step sequences of a knight.
pub open spec fn knight_dirs() -> Seq<Seq<Direction>> {
    seq![
        seq![Direction::IncRank, Direction::IncRank, Direction::IncFile],
        seq![Direction::IncRank, Direction::IncRank, Direction::DecFile],
        seq![Direction::DecRank, Direction::DecRank, Direction::IncFile],
        seq![Direction::DecRank, Direction::DecRank, Direction::DecFile],
        seq![Direction::IncRank, Direction::IncFile, Direction::IncFile],
        seq![Direction::IncRank, Direction::DecFile, Direction::DecFile],
        seq![Direction::DecRank, Direction::IncFile, Direction::IncFile],
        seq![Direction::DecRank, Direction::DecFile, Direction::DecFile],
    ]
}

/// The step sequences of a king.
pub open spec fn king_dirs() -> Seq<Seq<Direction>> {
    seq![
        seq![Direction::IncRank],
        seq![Direction::IncFile],
        seq![Direction::DecFile],
        seq![Direction::DecRank],
        seq![Direction::IncRank, Direction::IncFile],
        seq![Direction::IncRank, Direction::DecFile],
        seq![Direction::DecRank, Direction::IncFile],
        seq![Direction::DecRank, Direction::DecFile],
    ]
}

/// The step sequences of a pawn's captures.
pub open spec fn pawn_atk_dirs(side: Side) -> Seq<Seq<Direction>> {
    if side == Side::White {
        seq![seq![Direction::IncRank, Direction::IncFile], seq![Direction::IncRank, Direction::DecFile]]
    } else {
        seq![seq![Direction::DecRank, Direction::IncFile], seq![Direction::DecRank, Direction::DecFile]]
    }
}

/// The direction a side's pawns advance in.
pub open spec fn pawn_dir(side: Side) -> Direction {
    if side == Side::White { Direction::IncRank } else { Direction::DecRank }
}

/// The squares that the step sequences reach from square number `i` without leaving the
/// board, other than the square itself.
pub open spec fn leap_board(i: int, list: Seq<Seq<Direction>>) -> u64 {
    shifts_union(1u64 << (i as u64), list, list.len() as int) & !(1u64 << (i as u64))
}

/// The squares a pawn of the side on square number `i` may push to on an empty board: one
/// step, and a second from its starting rank.
pub open spec fn pawn_push_board(i: int, side: Side) -> u64 {
    let single = leap_board(i, seq![seq![pawn_dir(side)]]);
    let start_rank = if side == Side::White { 8 <= i < 16 } else { 48 <= i < 56 };
    if start_rank {
        single | shift_val(single, pawn_dir(side))
    } else {
        single
    }
}

/// A board for each square.
pub struct SquareToMoveDatabase(pub Vec<BitBoard>);

impl SquareToMoveDatabase {
    /// The board of each square is the one the step sequences give.
    pub open spec fn holds(&self, list: Seq<Seq<Direction>>) -> bool {
        &&& self.0.len() == 64
        &&& forall|i: int| 0 <= i < 64 ==> (#[trigger] self.0@[i]).0 == leap_board(i, list)
    }

    /// The board of the square.
    pub fn get_bitboard(&self, square: Square) -> (r: BitBoard)
        requires
            self.0.len() == 64,
        ensures
            r == self.0@[square.idx()],
    {
        self.0[square.to_u8() as usize]
    }
}

/// The board of each square: the squares each step sequence reaches from it.
pub fn calc_square_to_move_database(dirs: &Vec<Vec<Direction>>) -> (r: SquareToMoveDatabase)
    ensures
        r.holds(dir_lists(dirs@)),
{
    let mut bbs: Vec<BitBoard> = Vec::new();
    let mut idx: u8 = 0;
    while idx < 64
        invariant
            idx <= 64,
            bbs.len() == idx,
            forall|i: int| 0 <= i < idx ==> (#[trigger] bbs@[i]).0 == leap_board(i, dir_lists(dirs@)),
        decreases 64 - idx,
    {
        let sq = Square::from_u8(idx);
        let bb = BitBoard::from_square_shifts(sq, dirs);
        bbs.push(bb);
        idx += 1;
    }
    SquareToMoveDatabase(bbs)
}

/// A table of boards for each side.
pub struct ColoredSquareToMoveDatabase {
    pub white: SquareToMoveDatabase,
    pub black: SquareToMoveDatabase,
}

impl ColoredSquareToMoveDatabase {
    /// The side's table.
    pub open spec fn of(&self, side: Side) -> &SquareToMoveDatabase {
        match side {
            Side::White => &self.white,
            Side::Black => &self.black,
        }
    }

    /// The side's table.
    pub fn get_square_db(&self, side: Side) -> (r: &SquareToMoveDatabase)
        ensures
            r == self.of(side),
    {
        match side {
            Side::White => &self.white,
            Side::Black => &self.black,
        }
    }
}

/// The single-step push table of a side, with the second step added on its starting rank.
fn calc_pawn_pushes(side: Side) -> (r: SquareToMoveDatabase)
    ensures
        r.0.len() == 64,
        forall|i: int| 0 <= i < 64 ==> (#[trigger] r.0@[i]).0 == pawn_push_board(i, side),
{
    let dir = if side == Side::White { Direction::IncRank } else { Direction::DecRank };
    let dirs: Vec<Vec<Direction>> = vec![vec![dir]];
    proof {
        assert(dir_lists(dirs@) =~~= seq![seq![pawn_dir(side)]]);
    }
    let mut db = calc_square_to_move_database(&dirs);
    let (start, end): (u8, u8) = if side == Side::White { (8, 16) } else { (48, 56) };
    let mut idx: u8 = start;
    while idx < end
        invariant
            start <= idx <= end,
            end == start + 8,
            (side == Side::White ==> start == 8) && (side == Side::Black ==> start == 48),
            dir == pawn_dir(side),
            db.0.len() == 64,
            forall|i: int| 0 <= i < 64 && !(start <= i < idx) ==> (#[trigger] db.0@[i]).0 == leap_board(i, seq![seq![pawn_dir(side)]]),
            forall|i: int| start <= i < idx ==> (#[trigger] db.0@[i]).0 == pawn_push_board(i, side),
        decreases end - idx,
    {
        let single = db.0[idx as usize];
        let double = single.shift(dir);
        db.0.set(idx as usize, single.const_bit_or(double));
        idx += 1;
    }
    db
}

/// The tables of the leaping pieces' moves.
pub struct LeapingPiecesMoveGen {
    pub knight_atks: SquareToMoveDatabase,
    pub king_atks: SquareToMoveDatabase,
    pub pawn_pushes: ColoredSquareToMoveDatabase,
    pub pawn_atks: ColoredSquareToMoveDatabase,
}

impl LeapingPiecesMoveGen {
    /// Every table holds what its step sequences give.
    pub open spec fn wf(&self) -> bool {
        &&& self.knight_atks.holds(knight_dirs())
        &&& self.king_atks.holds(king_dirs())
        &&& self.pawn_atks.white.holds(pawn_atk_dirs(Side::White))
        &&& self.pawn_atks.black.holds(pawn_atk_dirs(Side::Black))
        &&& self.pawn_pushes.white.0.len() == 64
        &&& self.pawn_pushes.black.0.len() == 64
        &&& forall|i: int| 0 <= i < 64 ==> (#[trigger] self.pawn_pushes.white.0@[i]).0 == pawn_push_board(i, Side::White)
        &&& forall|i: int| 0 <= i < 64 ==> (#[trigger] self.pawn_pushes.black.0@[i]).0 == pawn_push_board(i, Side::Black)
    }

    /// Builds the tables.
    pub fn new() -> (r: LeapingPiecesMoveGen)
        ensures
            r.wf(),
    {
        let knight: Vec<Vec<Direction>> = vec![
            vec![Direction::IncRank, Direction::IncRank, Direction::IncFile],
            vec![Direction::IncRank, Direction::IncRank, Direction::DecFile],
            vec![Direction::DecRank, Direction::DecRank, Direction::IncFile],
            vec![Direction::DecRank, Direction::DecRank, Direction::DecFile],
            vec![Direction::IncRank, Direction::IncFile, Direction::IncFile],
            vec![Direction::IncRank, Direction::DecFile, Direction::DecFile],
            vec![Direction::DecRank, Direction::IncFile, Direction::IncFile],
            vec![Direction::DecRank, Direction::DecFile, Direction::DecFile],
        ];
        let king: Vec<Vec<Direction>> = vec![
            vec![Direction::IncRank],
            vec![Direction::IncFile],
            vec![Direction::DecFile],
            vec![Direction::DecRank],
            vec![Direction::IncRank, Direction::IncFile],
            vec![Direction::IncRank, Direction::DecFile],
            vec![Direction::DecRank, Direction::IncFile],
            vec![Direction::DecRank, Direction::DecFile],
        ];
        let white_pawn: Vec<Vec<Direction>> = vec![
            vec![Direction::IncRank, Direction::IncFile],
            vec![Direction::IncRank, Direction::DecFile],
        ];
        let black_pawn: Vec<Vec<Direction>> = vec![
            vec![Direction::DecRank, Direction::IncFile],
            vec![Direction::DecRank, Direction::DecFile],
        ];
        proof {
            assert(dir_lists(knight@) =~= knight_dirs());
            assert(dir_lists(king@) =~~= king_dirs());
            assert(dir_lists(white_pawn@) =~= pawn_atk_dirs(Side::White));
            assert(dir_lists(black_pawn@) =~= pawn_atk_dirs(Side::Black));
        }
        LeapingPiecesMoveGen {
            knight_atks: calc_square_to_move_database(&knight),
            king_atks: calc_square_to_move_database(&king),
            pawn_pushes: ColoredSquareToMoveDatabase { white: calc_pawn_pushes(Side::White), black: calc_pawn_pushes(Side::Black) },
            pawn_atks: ColoredSquareToMoveDatabase {
                white: calc_square_to_move_database(&white_pawn),
                black: calc_square_to_move_database(&black_pawn),
            },
        }
    }

    /// The squares a knight or a king on the square attacks.
    pub fn gen_knight_king_moves(&self, piece: Piece, square: Square) -> (r: BitBoard)
        requires
            self.wf(),
            piece == Piece::Knight || piece == Piece::King,
        ensures
            r.0 == leap_board(square.idx(), if piece == Piece::Knight { knight_dirs() } else { king_dirs() }),
    {
        match piece {
            Piece::Knight => self.knight_atks.get_bitboard(square),
            _ => self.king_atks.get_bitboard(square),
        }
    }

    /// The squares a pawn of the side on the square may push to on an empty board.
    pub fn gen_pawn_pushes(&self, square: Square, side: Side) -> (r: BitBoard)
        requires
            self.wf(),
        ensures
            r.0 == pawn_push_board(square.idx(), side),
    {
        self.pawn_pushes.get_square_db(side).get_bitboard(square)
    }

    /// The squares a pawn of the side on the square attacks.
    pub fn gen_pawn_atks(&self, square: Square, side: Side) -> (r: BitBoard)
        requires
            self.wf(),
        ensures
            r.0 == leap_board(square.idx(), pawn_atk_dirs(side)),
    {
        self.pawn_atks.get_square_db(side).get_bitboard(square)
    }
}

} // verus!
