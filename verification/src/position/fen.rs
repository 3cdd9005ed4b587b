//! Positions as text: reading and writing Forsyth-Edwards Notation (FEN), and drawing
//! the board.
use vstd::prelude::*;

use crate::bitboard::{BitBoard, Square};
use crate::position::{CastlingRights, Piece, Pieces, Position, Side, Sides, State};
use crate::position::zobrist_hash::ZobristHash;
use crate::text::{push_char, chars_string, parse_u8, spec_parse_u8, split_chars, split_on, str_chars};

verus! {

/// Why a FEN string was refused.
#[derive(Clone, Debug, PartialEq, Eq)]
pub enum FenParseError {
    /// The string does not have six fields; the number it has.
    NumFields(usize),
    /// The piece placement field, and where in it a character names no piece, digit or `/`.
    PiecePlacement(String, usize),
    /// The side to move is neither `w` nor `b`.
    SideToMove(String),
    /// The castling field, and where in it a character is not `K`, `Q`, `k` or `q`, or
    /// repeats one.
    CastlingRights(String, usize),
    /// The en passant field names no square.
    EnPassantTarget(String),
    /// The half move clock is no number below fifty.
    HalfmoveClock(String),
    /// The full move counter is no byte.
    FullMoveCounter(String),
}

/// The piece a lowercase letter names.
pub open spec fn letter_piece(c: char) -> Option<Piece> {
    if c == 'p' {
        Some(Piece::Pawn)
    } else if c == 'n' {
        Some(Piece::Knight)
    } else if c == 'b' {
        Some(Piece::Bishop)
    } else if c == 'r' {
        Some(Piece::Rook)
    } else if c == 'q' {
        Some(Piece::Queen)
    } else if c == 'k' {
        Some(Piece::King)
    } else {
        None
    }
}

/// The piece and side a FEN letter names: uppercase for White, lowercase for Black.
pub open spec fn piece_code(c: char) -> Option<(Piece, Side)> {
    if c == 'P' {
        Some((Piece::Pawn, Side::White))
    } else if c == 'N' {
        Some((Piece::Knight, Side::White))
    } else if c == 'B' {
        Some((Piece::Bishop, Side::White))
    } else if c == 'R' {
        Some((Piece::Rook, Side::White))
    } else if c == 'Q' {
        Some((Piece::Queen, Side::White))
    } else if c == 'K' {
        Some((Piece::King, Side::White))
    } else {
        match letter_piece(c) {
            Some(p) => Some((p, Side::Black)),
            None => None,
        }
    }
}

/// The value of a decimal digit.
pub open spec fn digit_of(c: char) -> Option<nat> {
    if '0' <= c <= '9' {
        Some((c as nat - '0' as nat) as nat)
    } else {
        None
    }
}

/// A character the piece placement field may hold: a piece letter, a digit or `/`.
pub open spec fn placement_char_ok(c: char) -> bool {
    piece_code(c) is Some || digit_of(c) is Some || c == '/'
}

/// How far a character of the placement field moves along the squares: a piece one
/// square, a digit that many, `/` none.
pub open spec fn advance(c: char) -> nat {
    if piece_code(c) is Some {
        1
    } else {
        match digit_of(c) {
            Some(d) => d,
            None => 0,
        }
    }
}

/// The number, in FEN order, of the square the `i`-th character of the placement field
/// stands for.
pub open spec fn fen_index(s: Seq<char>, i: int) -> nat
    decreases i,
{
    if i <= 0 {
        0
    } else {
        fen_index(s, i - 1) + advance(s[i - 1])
    }
}

/// The square with number `k` in FEN order: the eighth rank first, files a to h.
#[verifier::opaque]
pub open spec fn fen_square(k: int) -> Square {
    Square::spec_from_idx((7 - k / 8) * 8 + k % 8)
}

/// The first `n` characters of the placement field are all allowed.
pub open spec fn placement_ok_upto(s: Seq<char>, n: int) -> bool {
    forall|j: int| 0 <= j < n ==> placement_char_ok(#[trigger] s[j])
}

/// Every piece that the placement field puts down before any refused character lands on
/// one of the 64 squares.
pub open spec fn placement_fits(s: Seq<char>) -> bool {
    forall|i: int|
        0 <= i < s.len() && placement_ok_upto(s, i) && (#[trigger] piece_code(s[i])) is Some ==> fen_index(s, i) < 64
}

/// The placement field is refused at its `k`-th character: one that is neither a piece
/// letter, a digit nor `/`, or a piece letter with no square left for it.
pub open spec fn placement_refused_at(s: Seq<char>, k: int) -> bool {
    !placement_char_ok(s[k]) || (piece_code(s[k]) is Some && fen_index(s, k) >= 64)
}

/// Among the first `n` characters, one puts a piece of that kind and side on the square.
pub open spec fn placed_upto(s: Seq<char>, n: int, piece: Piece, side: Side, sq: Square) -> bool {
    exists|i: int| 0 <= i < n && #[trigger] piece_code(s[i]) == Some((piece, side)) && fen_square(fen_index(s, i) as int) == sq
}

/// Among the first `n` characters, one puts a piece of that side on the square.
pub open spec fn sided_upto(s: Seq<char>, n: int, side: Side, sq: Square) -> bool {
    exists|i: int| 0 <= i < n && (#[trigger] piece_code(s[i]) matches Some((_, sd)) && sd == side) && fen_square(fen_index(s, i) as int) == sq
}

/// The piece and side a FEN letter names.
fn piece_of_char(c: char) -> (r: Option<(Piece, Side)>)
    ensures
        r == piece_code(c),
{
    match c {
        'P' => Some((Piece::Pawn, Side::White)),
        'N' => Some((Piece::Knight, Side::White)),
        'B' => Some((Piece::Bishop, Side::White)),
        'R' => Some((Piece::Rook, Side::White)),
        'Q' => Some((Piece::Queen, Side::White)),
        'K' => Some((Piece::King, Side::White)),
        'p' => Some((Piece::Pawn, Side::Black)),
        'n' => Some((Piece::Knight, Side::Black)),
        'b' => Some((Piece::Bishop, Side::Black)),
        'r' => Some((Piece::Rook, Side::Black)),
        'q' => Some((Piece::Queen, Side::Black)),
        'k' => Some((Piece::King, Side::Black)),
        _ => None,
    }
}

/// The square with number `k` in FEN order.
fn fen_square_of(k: usize) -> (r: Square)
    requires
        k < 64,
    ensures
        r == fen_square(k as int),
{
    let r = Square::from_u8(((7 - k / 8) * 8 + k % 8) as u8);
    proof {
        reveal(fen_square);
        Square::lemma_from_idx((7 - k / 8) * 8 + k % 8);
        Square::lemma_idx_injective(r, fen_square(k as int));
    }
    r
}

/// The number of squares capped at 100, past which no piece may be put down anyway.
pub open spec fn capped(n: nat) -> nat {
    if n < 100 { n } else { 100 }
}

/// One more character: a piece adds one placement, other characters none.
proof fn lemma_placed_step(s: Seq<char>, i: int, piece: Piece, side: Side, sq: Square)
    requires
        0 <= i < s.len(),
    ensures
        placed_upto(s, i + 1, piece, side, sq) == (placed_upto(s, i, piece, side, sq) || (piece_code(s[i]) == Some((piece, side))
            && fen_square(fen_index(s, i) as int) == sq)),
{
    if placed_upto(s, i + 1, piece, side, sq) {
        let j = choose|j: int| 0 <= j < i + 1 && #[trigger] piece_code(s[j]) == Some((piece, side)) && fen_square(fen_index(s, j) as int) == sq;
        if j < i {
            assert(placed_upto(s, i, piece, side, sq));
        }
    }
    if placed_upto(s, i, piece, side, sq) {
        let j = choose|j: int| 0 <= j < i && #[trigger] piece_code(s[j]) == Some((piece, side)) && fen_square(fen_index(s, j) as int) == sq;
        assert(placed_upto(s, i + 1, piece, side, sq));
    }
    if piece_code(s[i]) == Some((piece, side)) && fen_square(fen_index(s, i) as int) == sq {
        assert(placed_upto(s, i + 1, piece, side, sq));
    }
}

/// One more character: a piece adds one placement for its side, other characters none.
proof fn lemma_sided_step(s: Seq<char>, i: int, side: Side, sq: Square)
    requires
        0 <= i < s.len(),
    ensures
        sided_upto(s, i + 1, side, sq) == (sided_upto(s, i, side, sq) || (piece_code(s[i]) matches Some((_, sd)) && sd == side
            && fen_square(fen_index(s, i) as int) == sq)),
{
    if sided_upto(s, i + 1, side, sq) {
        let j = choose|j: int| 0 <= j < i + 1 && (#[trigger] piece_code(s[j]) matches Some((_, sd)) && sd == side) && fen_square(fen_index(s, j) as int) == sq;
        if j < i {
            assert(sided_upto(s, i, side, sq));
        }
    }
    if sided_upto(s, i, side, sq) {
        let j = choose|j: int| 0 <= j < i && (#[trigger] piece_code(s[j]) matches Some((_, sd)) && sd == side) && fen_square(fen_index(s, j) as int) == sq;
        assert(sided_upto(s, i + 1, side, sq));
    }
    if piece_code(s[i]) matches Some((_, sd)) && sd == side && fen_square(fen_index(s, i) as int) == sq {
        assert(sided_upto(s, i + 1, side, sq));
    }
}

/// Reads the piece placement field: the boards of the sides and of the pieces.
///
/// Refuses the field at its first character that is neither a piece letter, a digit nor
/// `/`, or that is a piece letter with no square left for it. Each piece letter puts the
/// piece on the next square in FEN order, each digit skips that many squares.
pub fn pieces_from_fen(s: &Vec<char>) -> (r: Result<(Sides, Pieces), FenParseError>)
    ensures
        r is Ok == (placement_ok_upto(s@, s@.len() as int) && placement_fits(s@)),
        r matches Ok((sides, pieces)) ==> {
            &&& forall|piece: Piece, side: Side, sq: Square| #[trigger] pieces.board(piece, side).has(sq)
                == placed_upto(s@, s@.len() as int, piece, side, sq)
            &&& forall|side: Side, sq: Square| #[trigger] sides.of(side).has(sq) == sided_upto(s@, s@.len() as int, side, sq)
        },
        r matches Err(e) ==> e matches FenParseError::PiecePlacement(t, k) && t@ == s@ && k < s@.len() && placement_ok_upto(s@, k as int)
            && placement_refused_at(s@, k as int),
{
    let mut sides = Sides::new();
    let mut pieces = Pieces::new();
    let mut sq_idx: usize = 0;
    let mut i: usize = 0;
    proof {
        assert forall|side: Side, sq: Square| #[trigger] sides.of(side).has(sq) == sided_upto(s@, 0, side, sq) by {
            assert(sides.of(side).0 == 0);
            crate::bits::lemma_bit_zero(sq.idx() as u64);
        }
        assert forall|piece: Piece, side: Side, sq: Square| #[trigger] pieces.board(piece, side).has(sq)
            == placed_upto(s@, 0, piece, side, sq) by {
            assert(pieces.board(piece, side).0 == 0);
            crate::bits::lemma_bit_zero(sq.idx() as u64);
        }
    }
    while i < s.len()
        invariant
            i <= s.len(),
            forall|j: int| 0 <= j < i && (#[trigger] piece_code(s@[j])) is Some ==> fen_index(s@, j) < 64,
            placement_ok_upto(s@, i as int),
            sq_idx == capped(fen_index(s@, i as int)),
            forall|piece: Piece, side: Side, sq: Square| #[trigger] pieces.board(piece, side).has(sq)
                == placed_upto(s@, i as int, piece, side, sq),
            forall|side: Side, sq: Square| #[trigger] sides.of(side).has(sq) == sided_upto(s@, i as int, side, sq),
        decreases s.len() - i,
    {
        let c = s[i];
        if let Some((piece, side)) = piece_of_char(c) {
            if sq_idx >= 64 {
                return Err(FenParseError::PiecePlacement(chars_string(s), i));
            }
            let square = fen_square_of(sq_idx);
            let ghost old_sides = sides;
            let ghost old_pieces = pieces;
            sides.get_mut(side).set_square(square);
            let ghost old_board = old_pieces.board(piece, side);
            pieces.get_mut(piece).get_mut(side).set_square(square);
            proof {
                assert(pieces.board(piece, side).has(square));
                assert forall|t: Square| #[trigger] pieces.board(piece, side).has(t) == (old_board.has(t) || t == square) by {}
            }
            sq_idx += 1;
            proof {
                assert forall|p2: Piece, s2: Side, sq: Square| #[trigger] pieces.board(p2, s2).has(sq)
                    == placed_upto(s@, i + 1, p2, s2, sq) by {
                    lemma_placed_step(s@, i as int, p2, s2, sq);
                    if p2 == piece && s2 == side {
                        assert(pieces.board(p2, s2).has(sq) == (old_board.has(sq) || sq == square));
                    } else {
                        assert(pieces.board(p2, s2) == old_pieces.board(p2, s2));
                    }
                }
                assert forall|s2: Side, sq: Square| #[trigger] sides.of(s2).has(sq) == sided_upto(s@, i + 1, s2, sq) by {
                    lemma_sided_step(s@, i as int, s2, sq);
                    if s2 != side {
                        assert(sides.of(s2) == old_sides.of(s2));
                    }
                }
            }
        } else if '0' <= c && c <= '9' {
            let digit = (c as u32 - '0' as u32) as usize;
            sq_idx = if sq_idx + digit >= 100 { 100 } else { sq_idx + digit };
            proof {
                assert forall|p2: Piece, s2: Side, sq: Square| #[trigger] pieces.board(p2, s2).has(sq)
                    == placed_upto(s@, i + 1, p2, s2, sq) by {
                    lemma_placed_step(s@, i as int, p2, s2, sq);
                }
                assert forall|s2: Side, sq: Square| #[trigger] sides.of(s2).has(sq) == sided_upto(s@, i + 1, s2, sq) by {
                    lemma_sided_step(s@, i as int, s2, sq);
                }
            }
        } else if c == '/' {
            proof {
                assert forall|p2: Piece, s2: Side, sq: Square| #[trigger] pieces.board(p2, s2).has(sq)
                    == placed_upto(s@, i + 1, p2, s2, sq) by {
                    lemma_placed_step(s@, i as int, p2, s2, sq);
                }
                assert forall|s2: Side, sq: Square| #[trigger] sides.of(s2).has(sq) == sided_upto(s@, i + 1, s2, sq) by {
                    lemma_sided_step(s@, i as int, s2, sq);
                }
            }
        } else {
            return Err(FenParseError::PiecePlacement(chars_string(s), i));
        }
        i += 1;
    }
    proof {
        assert forall|j: int| 0 <= j < s@.len() && placement_ok_upto(s@, j) && (#[trigger] piece_code(s@[j])) is Some
            implies fen_index(s@, j) < 64 by {}
    }
    Ok((sides, pieces))
}

/// The castling field says no side may castle: it is empty or `-`.
pub open spec fn no_castling_text(s: Seq<char>) -> bool {
    s.len() == 0 || s =~= seq!['-']
}

/// The `k`-th character of the castling field is one of `K`, `Q`, `k`, `q` and does not
/// repeat an earlier one.
pub open spec fn castle_char_ok_at(s: Seq<char>, k: int) -> bool {
    &&& (s[k] == 'K' || s[k] == 'Q' || s[k] == 'k' || s[k] == 'q')
    &&& !s.take(k).contains(s[k])
}

/// Every character of the castling field is allowed.
pub open spec fn castling_ok(s: Seq<char>) -> bool {
    forall|k: int| 0 <= k < s.len() ==> #[trigger] castle_char_ok_at(s, k)
}

/// The rights the castling field names.
pub open spec fn castling_value(s: Seq<char>) -> CastlingRights {
    if no_castling_text(s) {
        CastlingRights { white_king_side: false, white_queen_side: false, black_king_side: false, black_queen_side: false }
    } else {
        CastlingRights {
            white_king_side: s.contains('K'),
            white_queen_side: s.contains('Q'),
            black_king_side: s.contains('k'),
            black_queen_side: s.contains('q'),
        }
    }
}

/// Reads the castling field: `-` or nothing for no rights, else each of `K`, `Q`, `k`,
/// `q` at most once.
pub fn castling_rights_from_fen(s: &Vec<char>) -> (r: Result<CastlingRights, FenParseError>)
    ensures
        r is Ok == (no_castling_text(s@) || castling_ok(s@)),
        r matches Ok(c) ==> c == castling_value(s@),
        r matches Err(e) ==> e matches FenParseError::CastlingRights(t, k) && t@ == s@ && k < s@.len() && !castle_char_ok_at(
            s@,
            k as int,
        ) && forall|j: int| 0 <= j < k ==> #[trigger] castle_char_ok_at(s@, j),
{
    if s.len() == 0 || (s.len() == 1 && s[0] == '-') {
        return Ok(CastlingRights::new(false, false, false, false));
    }
    let mut white_king_side = false;
    let mut white_queen_side = false;
    let mut black_king_side = false;
    let mut black_queen_side = false;
    let mut i: usize = 0;
    while i < s.len()
        invariant
            i <= s.len(),
            !no_castling_text(s@),
            forall|j: int| 0 <= j < i ==> #[trigger] castle_char_ok_at(s@, j),
            white_king_side == s@.take(i as int).contains('K'),
            white_queen_side == s@.take(i as int).contains('Q'),
            black_king_side == s@.take(i as int).contains('k'),
            black_queen_side == s@.take(i as int).contains('q'),
        decreases s.len() - i,
    {
        let ch = s[i];
        let ghost t = s@.take(i as int);
        let ghost t1 = s@.take(i + 1);
        proof {
            assert(t1 =~= t.push(ch));
            assert forall|x: char| #[trigger] t1.contains(x) == (t.contains(x) || x == ch) by {
                if t1.contains(x) {
                    let j = choose|j: int| 0 <= j < t1.len() && t1[j] == x;
                    if j < i {
                        assert(t[j] == x);
                    }
                }
                if x == ch {
                    assert(t1[i as int] == x);
                }
                if t.contains(x) {
                    let j = choose|j: int| 0 <= j < t.len() && t[j] == x;
                    assert(t1[j] == x);
                }
            }
        }
        let dup = match ch {
            'K' => white_king_side,
            'Q' => white_queen_side,
            'k' => black_king_side,
            'q' => black_queen_side,
            _ => true,
        };
        if dup {
            proof {
                assert(!castle_char_ok_at(s@, i as int));
            }
            return Err(FenParseError::CastlingRights(chars_string(s), i));
        }
        proof {
            assert(castle_char_ok_at(s@, i as int));
        }
        match ch {
            'K' => white_king_side = true,
            'Q' => white_queen_side = true,
            'k' => black_king_side = true,
            _ => black_queen_side = true,
        }
        i += 1;
    }
    proof {
        assert(s@.take(s.len() as int) =~= s@);
    }
    Ok(CastlingRights::new(white_king_side, white_queen_side, black_king_side, black_queen_side))
}

/// The number of a file letter, either case.
pub open spec fn file_of(c: char) -> Option<int> {
    if 'a' <= c <= 'h' {
        Some(c as int - 'a' as int)
    } else if 'A' <= c <= 'H' {
        Some(c as int - 'A' as int)
    } else {
        None
    }
}

/// The square a two-character name such as `e3` or `E3` stands for.
pub open spec fn named_square(s: Seq<char>) -> Option<Square> {
    if s.len() == 2 && file_of(s[0]) is Some && '1' <= s[1] <= '8' {
        Some(Square::spec_from_idx((s[1] as int - '1' as int) * 8 + file_of(s[0]).unwrap()))
    } else {
        None
    }
}

/// Reads the en passant field: `-` for no target, else the target square's name.
pub fn en_passant_target_from_fen(s: &Vec<char>) -> (r: Result<Option<Square>, FenParseError>)
    ensures
        s@ =~= seq!['-'] ==> r matches Ok(None),
        !(s@ =~= seq!['-']) ==> (r is Ok == named_square(s@) is Some),
        !(s@ =~= seq!['-']) && r is Ok ==> r == Ok::<Option<Square>, FenParseError>(named_square(s@)),
        r matches Err(e) ==> e matches FenParseError::EnPassantTarget(t) && t@ == s@,
{
    if s.len() == 1 && s[0] == '-' {
        return Ok(None);
    }
    if s.len() != 2 {
        return Err(FenParseError::EnPassantTarget(chars_string(s)));
    }
    let f = s[0];
    let rk = s[1];
    let file: u32 = if 'a' <= f && f <= 'h' {
        f as u32 - 'a' as u32
    } else if 'A' <= f && f <= 'H' {
        f as u32 - 'A' as u32
    } else {
        return Err(FenParseError::EnPassantTarget(chars_string(s)));
    };
    if rk < '1' || rk > '8' {
        return Err(FenParseError::EnPassantTarget(chars_string(s)));
    }
    let rank: u32 = rk as u32 - '1' as u32;
    let sq = Square::from_u8((rank * 8 + file) as u8);
    proof {
        Square::lemma_from_idx((rank * 8 + file) as int);
        Square::lemma_idx_injective(sq, named_square(s@).unwrap());
    }
    Ok(Some(sq))
}

/// The fields of a FEN string, split at each space.
pub open spec fn fen_fields(s: Seq<char>) -> Seq<Seq<char>> {
    split_on(s, ' ')
}

/// The side a side-to-move field names.
pub open spec fn side_code(t: Seq<char>) -> Option<Side> {
    if t =~= seq!['w'] {
        Some(Side::White)
    } else if t =~= seq!['b'] {
        Some(Side::Black)
    } else {
        None
    }
}

/// The half move clock field is a byte below fifty.
pub open spec fn clock_ok(t: Seq<char>) -> bool {
    spec_parse_u8(t) matches Some(v) && v < 50
}

/// The castling field is allowed.
pub open spec fn castling_field_ok(t: Seq<char>) -> bool {
    no_castling_text(t) || castling_ok(t)
}

/// The en passant field is allowed.
pub open spec fn en_passant_field_ok(t: Seq<char>) -> bool {
    t =~= seq!['-'] || named_square(t) is Some
}

/// The target an allowed en passant field names.
pub open spec fn en_passant_value(t: Seq<char>) -> Option<Square> {
    if t =~= seq!['-'] {
        None
    } else {
        named_square(t)
    }
}

/// The six fields are each allowed.
pub open spec fn fen_valid(f: Seq<Seq<char>>) -> bool {
    &&& f.len() == 6
    &&& placement_ok_upto(f[0], f[0].len() as int)
    &&& placement_fits(f[0])
    &&& side_code(f[1]) is Some
    &&& clock_ok(f[4])
    &&& spec_parse_u8(f[5]) is Some
    &&& castling_field_ok(f[2])
    &&& en_passant_field_ok(f[3])
}

/// The state six allowed fields describe.
pub open spec fn fen_state(f: Seq<Seq<char>>) -> State {
    State {
        to_move: side_code(f[1]).unwrap(),
        half_move_clock: spec_parse_u8(f[4]).unwrap(),
        en_passant_target: en_passant_value(f[3]),
        castling_rights: castling_value(f[2]),
        full_move_counter: spec_parse_u8(f[5]).unwrap(),
    }
}

impl Position {
    /// Reads a position from a FEN string: six fields split at spaces, the piece
    /// placement, the side to move, the castling rights, the en passant target, the half
    /// move clock and the full move counter.
    ///
    /// The checks come in this order: the number of fields, the placement (each character a
    /// piece letter, a digit or `/`, and no piece past the last square), the side to
    /// move, the half move clock (a byte below fifty), the full move counter (a byte), the
    /// castling rights and the en passant target. The first that fails gives the error.
    pub fn from_fen(fen: &str) -> (r: Result<Position, FenParseError>)
        ensures
            fen_fields(fen@).len() != 6 ==> (r matches Err(FenParseError::NumFields(n)) && n == fen_fields(fen@).len()),
            r is Ok == fen_valid(fen_fields(fen@)),
            r matches Ok(p) ==> {
                let f = fen_fields(fen@);
                &&& p.state == fen_state(f)
                &&& forall|piece: Piece, side: Side, sq: Square| #[trigger] p.pieces.board(piece, side).has(sq)
                    == placed_upto(f[0], f[0].len() as int, piece, side, sq)
                &&& forall|side: Side, sq: Square| #[trigger] p.sides.of(side).has(sq) == sided_upto(f[0], f[0].len() as int, side, sq)
                &&& p.hash_ok()
            },
            r matches Err(e) ==> {
                let f = fen_fields(fen@);
                match e {
                    FenParseError::NumFields(n) => f.len() != 6,
                    FenParseError::PiecePlacement(t, k) => f.len() == 6 && t@ == f[0] && k < f[0].len()
                        && placement_ok_upto(f[0], k as int) && placement_refused_at(f[0], k as int),
                    FenParseError::SideToMove(t) => f.len() == 6 && placement_ok_upto(f[0], f[0].len() as int) && t@ == f[1]
                        && side_code(f[1]) is None,
                    FenParseError::HalfmoveClock(t) => f.len() == 6 && placement_ok_upto(f[0], f[0].len() as int)
                        && side_code(f[1]) is Some && t@ == f[4] && !clock_ok(f[4]),
                    FenParseError::FullMoveCounter(t) => f.len() == 6 && placement_ok_upto(f[0], f[0].len() as int)
                        && side_code(f[1]) is Some && clock_ok(f[4]) && t@ == f[5] && spec_parse_u8(f[5]) is None,
                    FenParseError::CastlingRights(t, k) => f.len() == 6 && placement_ok_upto(f[0], f[0].len() as int)
                        && side_code(f[1]) is Some && clock_ok(f[4]) && spec_parse_u8(f[5]) is Some && t@ == f[2]
                        && k < f[2].len() && !castling_field_ok(f[2]) && !castle_char_ok_at(f[2], k as int)
                        && forall|j: int| 0 <= j < k ==> #[trigger] castle_char_ok_at(f[2], j),
                    FenParseError::EnPassantTarget(t) => f.len() == 6 && placement_ok_upto(f[0], f[0].len() as int)
                        && side_code(f[1]) is Some && clock_ok(f[4]) && spec_parse_u8(f[5]) is Some && castling_field_ok(f[2])
                        && t@ == f[3] && !en_passant_field_ok(f[3]),
                }
            },
    {
        let chars = str_chars(fen);
        let fields = split_chars(&chars, ' ');
        if fields.len() != 6 {
            return Err(FenParseError::NumFields(fields.len()));
        }
        proof {
            assert(fields@[0]@ == fen_fields(fen@)[0]);
            assert(fields@[1]@ == fen_fields(fen@)[1]);
            assert(fields@[2]@ == fen_fields(fen@)[2]);
            assert(fields@[3]@ == fen_fields(fen@)[3]);
            assert(fields@[4]@ == fen_fields(fen@)[4]);
            assert(fields@[5]@ == fen_fields(fen@)[5]);
        }
        let (sides, pieces) = match pieces_from_fen(&fields[0]) {
            Ok(boards) => boards,
            Err(e) => {
                return Err(e);
            },
        };
        let to_move = if fields[1].len() == 1 && fields[1][0] == 'w' {
            Side::White
        } else if fields[1].len() == 1 && fields[1][0] == 'b' {
            Side::Black
        } else {
            proof {
                assert(side_code(fields@[1]@) is None);
            }
            return Err(FenParseError::SideToMove(chars_string(&fields[1])));
        };
        proof {
            assert(side_code(fields@[1]@) == Some(to_move));
        }
        let half_move_clock = match parse_u8(&fields[4]) {
            Some(v) => v,
            None => {
                return Err(FenParseError::HalfmoveClock(chars_string(&fields[4])));
            },
        };
        // The half move clock must be below fifty.
        if half_move_clock >= 50 {
            return Err(FenParseError::HalfmoveClock(chars_string(&fields[4])));
        }
        let full_move_counter = match parse_u8(&fields[5]) {
            Some(v) => v,
            None => {
                return Err(FenParseError::FullMoveCounter(chars_string(&fields[5])));
            },
        };
        let castling_rights = match castling_rights_from_fen(&fields[2]) {
            Ok(c) => c,
            Err(e) => {
                return Err(e);
            },
        };
        let en_passant_target = match en_passant_target_from_fen(&fields[3]) {
            Ok(t) => t,
            Err(e) => {
                return Err(e);
            },
        };
        let state = State { castling_rights, en_passant_target, half_move_clock, to_move, full_move_counter };
        let zobrist_hash = ZobristHash::calculate(&pieces, &state);
        Ok(Position { sides, pieces, state, zobrist_hash })
    }
}

/// The FEN letter of a piece: uppercase for White, lowercase for Black.
pub open spec fn fen_char(piece: Piece, side: Side) -> char {
    match (piece, side) {
        (Piece::Pawn, Side::White) => 'P',
        (Piece::Knight, Side::White) => 'N',
        (Piece::Bishop, Side::White) => 'B',
        (Piece::Rook, Side::White) => 'R',
        (Piece::Queen, Side::White) => 'Q',
        (Piece::King, Side::White) => 'K',
        (p, Side::Black) => p.letter(),
    }
}

/// The digit of a number below ten.
pub open spec fn digit_char(n: nat) -> char {
    ((n + '0' as nat) as u32) as char
}

/// A count of empty squares, written when there are any.
pub open spec fn empties_text(empties: nat) -> Seq<char> {
    if empties > 0 {
        seq![digit_char(empties)]
    } else {
        seq![]
    }
}

/// The FEN text of a rank from `file` on, after `empties` empty squares: each run of
/// empty squares as its length, each piece as its letter.
pub open spec fn rank_text(p: Position, rank: int, file: int, empties: nat) -> Seq<char>
    decreases 8 - file,
{
    if file >= 8 {
        empties_text(empties)
    } else {
        match p.occupant(Square::spec_from_idx(rank * 8 + file)) {
            Some((piece, side)) => empties_text(empties) + seq![fen_char(piece, side)] + rank_text(p, rank, file + 1, 0),
            None => rank_text(p, rank, file + 1, empties + 1),
        }
    }
}

/// The FEN text of the ranks from the eighth down to `rank`, separated by `/`.
pub open spec fn placement_text(p: Position, rank: int) -> Seq<char>
    decreases 8 - rank,
{
    if rank >= 7 {
        rank_text(p, 7, 0, 0)
    } else {
        placement_text(p, rank + 1) + seq!['/'] + rank_text(p, rank, 0, 0)
    }
}

/// A number in decimal.
pub open spec fn decimal_text(n: nat) -> Seq<char>
    decreases n,
{
    if n < 10 {
        seq![digit_char(n)]
    } else {
        decimal_text(n / 10) + seq![digit_char(n % 10)]
    }
}

/// The castling field of the rights: the letters of those held, or `-`.
pub open spec fn castling_text(c: CastlingRights) -> Seq<char> {
    let t = (if c.white_king_side { seq!['K'] } else { seq![] }) + (if c.white_queen_side { seq!['Q'] } else { seq![] }) + (
    if c.black_king_side { seq!['k'] } else { seq![] }) + (if c.black_queen_side { seq!['q'] } else { seq![] });
    if t.len() == 0 {
        seq!['-']
    } else {
        t
    }
}

/// The lowercase name of a square, file letter then rank digit.
pub open spec fn square_name(sq: Square) -> Seq<char> {
    seq![((sq.idx() % 8 + 'a' as int) as u32) as char, ((sq.idx() / 8 + '1' as int) as u32) as char]
}

/// The FEN text of a position; the full move counter is always written as 1.
pub open spec fn fen_text(p: Position) -> Seq<char> {
    placement_text(p, 0) + seq![' ', if p.state.to_move == Side::White { 'w' } else { 'b' }, ' '] + castling_text(
        p.state.castling_rights,
    ) + seq![' '] + (match p.state.en_passant_target {
        Some(t) => square_name(t),
        None => seq!['-'],
    }) + seq![' '] + decimal_text(p.state.half_move_clock as nat) + seq![' ', '1']
}

/// Appends the characters.
fn push_all(out: &mut String, t: &Vec<char>)
    ensures
        final(out)@ == old(out)@ + t@,
{
    let mut i: usize = 0;
    while i < t.len()
        invariant
            i <= t.len(),
            out@ == old(out)@ + t@.take(i as int),
        decreases t.len() - i,
    {
        push_char(out, t[i]);
        proof {
            assert(t@.take(i + 1) =~= t@.take(i as int).push(t@[i as int]));
        }
        i += 1;
    }
    proof {
        assert(t@.take(t.len() as int) =~= t@);
    }
}

/// The digit of a number below ten.
fn digit_of_num(n: u8) -> (r: char)
    requires
        n < 10,
    ensures
        r == digit_char(n as nat),
{
    match n {
        0 => '0',
        1 => '1',
        2 => '2',
        3 => '3',
        4 => '4',
        5 => '5',
        6 => '6',
        7 => '7',
        8 => '8',
        _ => '9',
    }
}

/// Appends a byte in decimal.
fn push_decimal(out: &mut String, n: u8)
    ensures
        final(out)@ == old(out)@ + decimal_text(n as nat),
{
    if n >= 100 {
        push_char(out, digit_of_num(n / 100));
        push_char(out, digit_of_num((n / 10) % 10));
        proof {
            assert(decimal_text((n / 10) as nat) =~= decimal_text((n / 100) as nat) + seq![digit_char(((n / 10) % 10) as nat)]);
        }
    } else if n >= 10 {
        push_char(out, digit_of_num(n / 10));
    }
    push_char(out, digit_of_num(n % 10));
    proof {
        if n >= 10 {
            assert(decimal_text(n as nat) == decimal_text((n / 10) as nat) + seq![digit_char((n % 10) as nat)]);
        }
    }
    assert(final(out)@ =~= old(out)@ + decimal_text(n as nat));
}

impl Position {
    /// Appends the FEN text of a rank from `file` on, after `empties` empty squares.
    fn push_rank(&self, out: &mut String, rank: u8, file: u8, empties: u8)
        requires
            rank < 8,
            file <= 8,
            empties <= file,
        ensures
            final(out)@ == old(out)@ + rank_text(*self, rank as int, file as int, empties as nat),
        decreases 8 - file,
    {
        if file >= 8 {
            if empties > 0 {
                push_char(out, digit_of_num(empties));
            }
            assert(final(out)@ =~= old(out)@ + empties_text(empties as nat));
            return;
        }
        let sq = Square::from_u8(rank * 8 + file);
        proof {
            Square::lemma_from_idx(rank * 8 + file);
            Square::lemma_idx_injective(sq, Square::spec_from_idx(rank * 8 + file));
        }
        match self.is_piece_at_no_side(sq) {
            Some((piece, side)) => {
                if empties > 0 {
                    push_char(out, digit_of_num(empties));
                }
                let ch = match side {
                    Side::White => match piece {
                        Piece::Pawn => 'P',
                        Piece::Knight => 'N',
                        Piece::Bishop => 'B',
                        Piece::Rook => 'R',
                        Piece::Queen => 'Q',
                        Piece::King => 'K',
                    },
                    Side::Black => piece.to_char(),
                };
                push_char(out, ch);
                let ghost mid = out@;
                self.push_rank(out, rank, file + 1, 0);
                assert(final(out)@ =~= old(out)@ + rank_text(*self, rank as int, file as int, empties as nat));
            },
            None => {
                self.push_rank(out, rank, file + 1, empties + 1);
            },
        }
    }

    /// Appends the piece placement field.
    fn push_placement(&self, out: &mut String)
        ensures
            final(out)@ == old(out)@ + placement_text(*self, 0),
    {
        let ghost start = out@;
        let mut rank: u8 = 8;
        while rank > 0
            invariant
                rank <= 8,
                rank == 8 ==> out@ == start,
                rank < 8 ==> out@ == start + placement_text(*self, rank as int),
            decreases rank,
        {
            rank -= 1;
            if rank != 7 {
                push_char(out, '/');
            }
            self.push_rank(out, rank, 0, 0);
            proof {
                if rank == 7 {
                    assert(out@ =~= start + placement_text(*self, 7));
                } else {
                    assert(out@ =~= start + placement_text(*self, rank as int));
                }
            }
        }
    }

    /// Writes the position in FEN, with the full move counter written as 1.
    pub fn to_fen(&self) -> (r: String)
        ensures
            r@ == fen_text(*self),
    {
        let mut out = String::new();
        self.push_placement(&mut out);
        push_char(&mut out, ' ');
        push_char(&mut out, if self.state.to_move == Side::White { 'w' } else { 'b' });
        push_char(&mut out, ' ');
        let castling = castling_chars(self.state.castling_rights);
        push_all(&mut out, &castling);
        push_char(&mut out, ' ');
        let ep = en_passant_chars(self.state.en_passant_target);
        push_all(&mut out, &ep);
        push_char(&mut out, ' ');
        push_decimal(&mut out, self.state.half_move_clock);
        push_char(&mut out, ' ');
        push_char(&mut out, '1');
        assert(out@ =~= fen_text(*self));
        out
    }
}

/// The castling field of the rights.
fn castling_chars(c: CastlingRights) -> (r: Vec<char>)
    ensures
        r@ == castling_text(c),
{
    let mut castling: Vec<char> = Vec::new();
    if c.white_king_side {
        castling.push('K');
    }
    if c.white_queen_side {
        castling.push('Q');
    }
    if c.black_king_side {
        castling.push('k');
    }
    if c.black_queen_side {
        castling.push('q');
    }
    if castling.len() == 0 {
        castling.push('-');
    }
    assert(castling@ =~= castling_text(c));
    castling
}

/// The en passant field of a target.
fn en_passant_chars(target: Option<Square>) -> (r: Vec<char>)
    ensures
        r@ == match target {
            Some(t) => square_name(t),
            None => seq!['-'],
        },
{
    let mut v: Vec<char> = Vec::new();
    match target {
        Some(t) => {
            let (rank_num, file_num) = t.to_rank_file();
            v.push((file_num + 97) as char);
            v.push((rank_num + 49) as char);
            assert(v@ =~= square_name(t));
        },
        None => {
            v.push('-');
        },
    }
    v
}

/// The character of a square on the drawn board: the piece's FEN letter, or `.`.
pub open spec fn square_char(p: Position, i: int) -> char {
    match p.occupant(Square::spec_from_idx(i)) {
        Some((piece, side)) => fen_char(piece, side),
        None => '.',
    }
}

/// The first `n` squares drawn, from A1 on, a line per rank.
pub open spec fn board_text(p: Position, n: int) -> Seq<char>
    decreases n,
{
    if n <= 0 {
        seq![]
    } else {
        board_text(p, n - 1) + (if n - 1 > 0 && (n - 1) % 8 == 0 { seq!['\n'] } else { seq![] }) + seq![square_char(p, n - 1)]
    }
}

impl Position {
    /// The board drawn as text: a line per rank, the first rank first, each square as the
    /// FEN letter of its piece or `.`.
    pub fn to_board_string(&self) -> (r: String)
        ensures
            r@ == board_text(*self, 64),
    {
        let mut out = String::new();
        let mut i: u8 = 0;
        while i < 64
            invariant
                i <= 64,
                out@ == board_text(*self, i as int),
            decreases 64 - i,
        {
            let sq = Square::from_u8(i);
            proof {
                Square::lemma_from_idx(i as int);
                Square::lemma_idx_injective(sq, Square::spec_from_idx(i as int));
            }
            if i > 0 && i % 8 == 0 {
                push_char(&mut out, '\n');
            }
            let ch = match self.is_piece_at_no_side(sq) {
                Some((piece, Side::White)) => match piece {
                    Piece::Pawn => 'P',
                    Piece::Knight => 'N',
                    Piece::Bishop => 'B',
                    Piece::Rook => 'R',
                    Piece::Queen => 'Q',
                    Piece::King => 'K',
                },
                Some((piece, Side::Black)) => piece.to_char(),
                None => '.',
            };
            push_char(&mut out, ch);
            assert(out@ =~= board_text(*self, i + 1));
            i += 1;
        }
        out
    }
}

} // verus!
