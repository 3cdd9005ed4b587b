//! Telling beforehand whether a move can be made or taken back.
use vstd::prelude::*;

use crate::bitboard::{shift_dest, Direction, Square};
use crate::position::{
    backward, castle_rook, forward, lemma_stage_captured_boards, step_sq, step_square, Move, Piece, Position, Side,
};

use crate::session::upper_square_name;
use crate::text::{chars_string, str_chars};

verus! {

/// Whether the square one step from `sq` in `dir` is on the board.
pub fn step_exists(sq: Square, dir: Direction) -> (r: bool)
    ensures
        r == (shift_dest(sq.idx(), dir) >= 0),
{
    let i = sq.to_u8();
    match dir {
        Direction::IncRank => i < 56,
        Direction::DecRank => i >= 8,
        Direction::IncFile => i % 8 != 7,
        Direction::DecFile => i % 8 != 0,
    }
}

impl Position {
    /// Whether an en passant capture passes the checks of `make_move`.
    fn can_make_en_passant(&self, m: Move) -> (r: bool)
        requires
            self.state.half_move_clock < 50,
            self.piece_on(m.src, self.state.to_move) is Some,
            self.state.to_move == Side::Black ==> self.state.full_move_counter < 255,
            self.is_en_passant(m),
        ensures
            r == self.make_move_ok(m),
    {
        let side = self.state.to_move;
        let back = if side == Side::White { Direction::DecRank } else { Direction::IncRank };
        if !step_exists(m.dest, back) {
            return false;
        }
        if self.is_piece_at(m.dest, side).is_some() {
            return false;
        }
        let mut p = *self;
        p.make_move_common();
        p.move_piece(m.src, m.dest, Piece::Pawn, side);
        let cap = step_square(m.dest, back);
        p.is_piece_at(cap, side.opposite_side()).is_some()
    }

    /// Whether a move that is not en passant passes the checks of `make_move`.
    fn can_make_ordinary(&self, m: Move, piece: Piece) -> (r: bool)
        requires
            self.state.half_move_clock < 50,
            self.piece_on(m.src, self.state.to_move) == Some(piece),
            self.state.to_move == Side::Black ==> self.state.full_move_counter < 255,
            !self.is_en_passant(m),
        ensures
            r == self.make_move_ok(m),
    {
        let ghost start = *self;
        let side = self.state.to_move;
        let fwd = if side == Side::White { Direction::IncRank } else { Direction::DecRank };
        if piece == Piece::Pawn && m.src.abs_diff(m.dest) == 16 && !step_exists(m.src, fwd) {
            return false;
        }
        let captured = self.is_piece_at(m.dest, side.opposite_side());
        let mut p = *self;
        p.make_move_common();
        p.make_move_capture_stage(m, piece, captured, Ghost(start));
        proof {
            lemma_stage_captured_boards(start, m);
            assert(p.piece_on(m.src, side) == start.piece_on(m.src, side));
        }
        let dest_idx = m.dest.to_u8();
        if piece == Piece::Pawn && (dest_idx >= 56 || dest_idx <= 7) {
            if m.promotion.is_none() {
                return false;
            }
            let mut q = p;
            q.remove_piece(m.src, Piece::Pawn, side);
            return q.is_piece_at(m.dest, side).is_none();
        }
        if piece == Piece::King && m.src.abs_diff(m.dest) == 2 {
            if !(m.dest == Square::C1 || m.dest == Square::G1 || m.dest == Square::C8 || m.dest == Square::G8) {
                return false;
            }
            let (rook_src, rook_dest) = if m.dest == Square::C1 {
                (Square::A1, Square::D1)
            } else if m.dest == Square::G1 {
                (Square::H1, Square::F1)
            } else if m.dest == Square::C8 {
                (Square::A8, Square::D8)
            } else {
                (Square::H8, Square::F8)
            };
            if p.is_piece_at(rook_src, side).is_none() || p.is_piece_at(rook_dest, side).is_some() {
                return false;
            }
        }
        p.make_move_rights_stage(m, piece, side, Ghost(start));
        if p.is_piece_at(m.src, side).is_none() || p.is_piece_at(m.dest, side).is_some() {
            return false;
        }
        p.move_piece(m.src, m.dest, piece, side);
        p.pieces.kings.white.0 != 0
    }

    /// Whether the move passes every check of `make_move`, so that it may be made.
    pub fn can_make_move(&self, m: Move) -> (r: bool)
        ensures
            r == self.make_move_ok(m),
    {
        let side = self.state.to_move;
        if self.state.half_move_clock >= 50 {
            return false;
        }
        let piece = match self.is_piece_at(m.src, side) {
            Some(p) => p,
            None => {
                return false;
            },
        };
        if side == Side::Black && self.state.full_move_counter >= 255 {
            return false;
        }
        let is_ep = match self.state.en_passant_target {
            Some(t) => t == m.dest && piece == Piece::Pawn,
            None => false,
        };
        if is_ep {
            self.can_make_en_passant(m)
        } else {
            self.can_make_ordinary(m, piece)
        }
    }
}

/// The kind of piece with the number, 0 for a pawn up to 5 for a king.
pub open spec fn piece_numbered(i: int) -> Piece {
    if i <= 0 {
        Piece::Pawn
    } else if i == 1 {
        Piece::Knight
    } else if i == 2 {
        Piece::Bishop
    } else if i == 3 {
        Piece::Rook
    } else if i == 4 {
        Piece::Queen
    } else {
        Piece::King
    }
}

/// The first pair of kinds, in the order of their numbers, whose boards of the side share
/// a square, looking from the pair (`a`, `b`) on.
pub open spec fn overlap_from(p: Position, side: Side, a: int, b: int) -> Option<(Piece, Piece)>
    decreases 6 - a, 7 - b,
{
    if a >= 6 || a < 0 {
        None
    } else if b >= 6 {
        overlap_from(p, side, a + 1, a + 2)
    } else if p.pieces.board(piece_numbered(a), side).0 & p.pieces.board(piece_numbered(b), side).0 != 0 {
        Some((piece_numbered(a), piece_numbered(b)))
    } else {
        overlap_from(p, side, a, b + 1)
    }
}

/// The name of a kind of piece.
pub open spec fn piece_name(piece: Piece) -> Seq<char> {
    match piece {
        Piece::Pawn => "Pawn"@,
        Piece::Knight => "Knight"@,
        Piece::Bishop => "Bishop"@,
        Piece::Rook => "Rook"@,
        Piece::Queen => "Queen"@,
        Piece::King => "King"@,
    }
}

/// The name of a side.
pub open spec fn side_name(side: Side) -> Seq<char> {
    match side {
        Side::White => "White"@,
        Side::Black => "Black"@,
    }
}

/// The move as `E2 -> E4`, with ` (Queen)` after it for a promotion.
pub open spec fn move_arrow_text(m: Move) -> Seq<char> {
    upper_square_name(m.src) + " -> "@ + upper_square_name(m.dest) + match m.promotion {
        Some(piece) => " ("@ + piece_name(piece) + ")"@,
        None => seq![],
    }
}

/// The message of two kinds sharing a square after a move.
pub open spec fn overlap_text(m: Move, side: Side, a: Piece, b: Piece) -> Seq<char> {
    "Invalid state: move="@ + move_arrow_text(m) + " caused "@ + side_name(side) + " "@ + piece_name(a) + " and "@
        + piece_name(b) + " to set the same squares"@
}

/// What is wrong with the position after the move, if anything: a missing king, White's
/// first, or two kinds of one side on a square, White's first.
pub open spec fn validation_error(p: Position, m: Move) -> Option<Seq<char>> {
    if p.pieces.board(Piece::King, Side::White).0 == 0 {
        Some("White king missing"@)
    } else if p.pieces.board(Piece::King, Side::Black).0 == 0 {
        Some("Black king missing"@)
    } else if overlap_from(p, Side::White, 0, 1) is Some {
        let (a, b) = overlap_from(p, Side::White, 0, 1).unwrap();
        Some(overlap_text(m, Side::White, a, b))
    } else if overlap_from(p, Side::Black, 0, 1) is Some {
        let (a, b) = overlap_from(p, Side::Black, 0, 1).unwrap();
        Some(overlap_text(m, Side::Black, a, b))
    } else {
        None
    }
}

/// Appends the text's characters.
fn append_text(out: &mut Vec<char>, t: &str)
    ensures
        final(out)@ == old(out)@ + t@,
{
    let cs = str_chars(t);
    let mut i: usize = 0;
    while i < cs.len()
        invariant
            i <= cs.len(),
            cs@ == t@,
            out@ == old(out)@ + cs@.take(i as int),
        decreases cs.len() - i,
    {
        out.push(cs[i]);
        i += 1;
        proof {
            assert(cs@.take(i as int) =~= cs@.take(i - 1) + seq![cs@[i - 1]]);
        }
    }
    proof {
        assert(cs@.take(i as int) =~= cs@);
    }
}

/// The kind of piece with the number.
fn piece_with_number(i: usize) -> (r: Piece)
    requires
        i < 6,
    ensures
        r == piece_numbered(i as int),
{
    if i == 0 {
        Piece::Pawn
    } else if i == 1 {
        Piece::Knight
    } else if i == 2 {
        Piece::Bishop
    } else if i == 3 {
        Piece::Rook
    } else if i == 4 {
        Piece::Queen
    } else {
        Piece::King
    }
}

/// The name of a kind of piece.
fn piece_name_text(piece: Piece) -> (r: &'static str)
    ensures
        r@ == piece_name(piece),
{
    match piece {
        Piece::Pawn => "Pawn",
        Piece::Knight => "Knight",
        Piece::Bishop => "Bishop",
        Piece::Rook => "Rook",
        Piece::Queen => "Queen",
        Piece::King => "King",
    }
}

/// Appends the capital name of a square.
fn append_square(out: &mut Vec<char>, sq: Square)
    ensures
        final(out)@ == old(out)@ + upper_square_name(sq),
{
    let (rank, file) = sq.to_rank_file();
    out.push((file + 65) as char);
    out.push((rank + 49) as char);
    assert(final(out)@ =~= old(out)@ + upper_square_name(sq));
}

/// Appends the move as `E2 -> E4`, with the promotion after it.
fn append_arrow(out: &mut Vec<char>, m: Move)
    ensures
        final(out)@ == old(out)@ + move_arrow_text(m),
{
    let ghost start = out@;
    append_square(out, m.src);
    append_text(out, " -> ");
    append_square(out, m.dest);
    match m.promotion {
        Some(piece) => {
            append_text(out, " (");
            append_text(out, piece_name_text(piece));
            append_text(out, ")");
        },
        None => {},
    }
    assert(out@ =~= start + move_arrow_text(m));
}

impl Move {
    /// The move as `E2 -> E4`, or `F7 -> B6 (Queen)` for a promotion.
    pub fn to_arrow_string(&self) -> (r: String)
        ensures
            r@ == move_arrow_text(*self),
    {
        let mut out: Vec<char> = Vec::new();
        append_arrow(&mut out, *self);
        assert(out@ =~= move_arrow_text(*self));
        chars_string(&out)
    }
}

/// The message of two kinds sharing a square after a move.
fn overlap_message(m: Move, side: Side, a: Piece, b: Piece) -> (r: String)
    ensures
        r@ == overlap_text(m, side, a, b),
{
    let mut out: Vec<char> = Vec::new();
    append_text(&mut out, "Invalid state: move=");
    append_arrow(&mut out, m);
    append_text(&mut out, " caused ");
    match side {
        Side::White => append_text(&mut out, "White"),
        Side::Black => append_text(&mut out, "Black"),
    }
    append_text(&mut out, " ");
    append_text(&mut out, piece_name_text(a));
    append_text(&mut out, " and ");
    append_text(&mut out, piece_name_text(b));
    append_text(&mut out, " to set the same squares");
    assert(out@ =~= overlap_text(m, side, a, b));
    chars_string(&out)
}

impl Position {
    /// The first pair of the side's kinds whose boards share a square.
    fn find_overlap(&self, side: Side) -> (r: Option<(Piece, Piece)>)
        ensures
            r == overlap_from(*self, side, 0, 1),
    {
        let mut a: usize = 0;
        while a < 6
            invariant
                a <= 6,
                overlap_from(*self, side, 0, 1) == overlap_from(*self, side, a as int, a + 1),
            decreases 6 - a,
        {
            let pa = piece_with_number(a);
            let mut b: usize = a + 1;
            while b < 6
                invariant
                    a < 6,
                    a < b <= 6,
                    pa == piece_numbered(a as int),
                    overlap_from(*self, side, 0, 1) == overlap_from(*self, side, a as int, b as int),
                decreases 6 - b,
            {
                let pb = piece_with_number(b);
                let wa = self.pieces.get(pa).get(side);
                let wb = self.pieces.get(pb).get(side);
                if wa.0 & wb.0 != 0 {
                    return Some((pa, pb));
                }
                b += 1;
            }
            a += 1;
        }
        None
    }

    /// Checks that both kings are on the board and that no two kinds of one side share a
    /// square, naming the move just made in the message.
    pub fn validate_position(&self, mve: Move) -> (r: Result<(), String>)
        ensures
            r is Ok == validation_error(*self, mve) is None,
            r matches Err(e) ==> validation_error(*self, mve) == Some(e@),
    {
        if self.pieces.get(Piece::King).get(Side::White).is_empty() {
            return Err(chars_string(&str_chars("White king missing")));
        }
        if self.pieces.get(Piece::King).get(Side::Black).is_empty() {
            return Err(chars_string(&str_chars("Black king missing")));
        }
        match self.find_overlap(Side::White) {
            Some((a, b)) => {
                return Err(overlap_message(mve, Side::White, a, b));
            },
            None => {},
        }
        match self.find_overlap(Side::Black) {
            Some((a, b)) => Err(overlap_message(mve, Side::Black, a, b)),
            None => Ok(()),
        }
    }
}

/// The pieces found among the first `k` places: place `k` is the side (White first), then
/// the kind (pawn first), then the square (A1 first).
pub open spec fn locs_upto(p: Position, k: int) -> Seq<(Piece, Side, Square)>
    decreases k,
{
    if k <= 0 {
        seq![]
    } else {
        let j = k - 1;
        let side = if j / 384 == 0 { Side::White } else { Side::Black };
        let piece = piece_numbered((j % 384) / 64);
        let sq = Square::spec_from_idx(j % 64);
        locs_upto(p, j) + if p.pieces.board(piece, side).has(sq) {
            seq![(piece, side, sq)]
        } else {
            seq![]
        }
    }
}

impl Position {
    /// Every piece on the board with its side and square: White's first, then Black's;
    /// within a side pawns, knights, bishops, rooks, queens and kings; each kind's squares
    /// from A1 up.
    pub fn piece_locs(&self) -> (r: Vec<(Piece, Side, Square)>)
        ensures
            r@ == locs_upto(*self, 768),
    {
        let mut r: Vec<(Piece, Side, Square)> = Vec::new();
        let mut k: usize = 0;
        while k < 768
            invariant
                k <= 768,
                r@ == locs_upto(*self, k as int),
            decreases 768 - k,
        {
            let side = if k / 384 == 0 { Side::White } else { Side::Black };
            let piece = piece_with_number((k % 384) / 64);
            let sq = Square::from_u8((k % 64) as u8);
            proof {
                Square::lemma_from_idx((k % 64) as int);
                Square::lemma_idx_injective(sq, Square::spec_from_idx((k % 64) as int));
            }
            if self.pieces.get(piece).get(side).is_square_set(sq) {
                r.push((piece, side, sq));
            }
            k += 1;
        }
        r
    }
}

} // verus!
