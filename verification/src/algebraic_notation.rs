//! Writing moves in standard algebraic notation.
use vstd::prelude::*;

use crate::bitboard::Square;
use crate::move_gen::MoveGen;
use crate::perft::has_king;
use crate::position::fen::square_name;
use crate::position::{Move, Piece, Position, Side};
use crate::session::upper_square_name;
use crate::text::{chars_string, push_char};

verus! {

/// Why a move could not be written.
#[derive(Clone, Debug, PartialEq, Eq)]
pub enum AlgebraicNotationError {
    /// The side to move has no piece on the move's source square; its name.
    NoPieceAtSrc(String),
    /// The move cannot be made; its source square's name.
    InvalidMove(String),
}

/// The uppercase letter of a piece.
pub open spec fn upper_letter(piece: Piece) -> char {
    match piece {
        Piece::Pawn => 'P',
        Piece::Knight => 'N',
        Piece::Bishop => 'B',
        Piece::Rook => 'R',
        Piece::Queen => 'Q',
        Piece::King => 'K',
    }
}

/// The uppercase letter of a piece.
fn upper_letter_of(piece: Piece) -> (r: char)
    ensures
        r == upper_letter(piece),
{
    match piece {
        Piece::Pawn => 'P',
        Piece::Knight => 'N',
        Piece::Bishop => 'B',
        Piece::Rook => 'R',
        Piece::Queen => 'Q',
        Piece::King => 'K',
    }
}

/// The other moves among the first `n` that land on the move's destination from another
/// square holding a piece of the same kind.
pub open spec fn rivals_upto(p: Position, moves: Seq<Move>, m: Move, piece: Piece, n: int) -> Seq<Move>
    decreases n,
{
    if n <= 0 {
        seq![]
    } else {
        let o = moves[n - 1];
        rivals_upto(p, moves, m, piece, n - 1) + if o.dest == m.dest && o.src != m.src && p.piece_on(o.src, p.state.to_move)
            == Some(piece) {
            seq![o]
        } else {
            seq![]
        }
    }
}

/// The characters that tell the moving rook or queen apart from its rivals: its file
/// when a rival shares its rank or there are several rivals, then its rank when a rival
/// shares its file or there are several.
pub open spec fn disambiguation(m: Move, rivals: Seq<Move>) -> Seq<char> {
    let name = square_name(m.src);
    let same_rank = exists|k: int| 0 <= k < rivals.len() && #[trigger] rivals[k].src.rank() == m.src.rank();
    let same_file = exists|k: int| 0 <= k < rivals.len() && #[trigger] rivals[k].src.file() == m.src.file();
    (if same_rank || rivals.len() > 1 { seq![name[0]] } else { seq![] }) + (if same_file || rivals.len() > 1 { seq![name[1]] } else { seq![] })
}

/// The characters telling a rook or queen move apart from its rivals.
#[verifier::opaque]
pub open spec fn disamb_part(g: MoveGen, p: Position, m: Move, piece: Piece) -> Seq<char> {
    let moves = g.all_pieces.moves_spec(p);
    disambiguation(m, rivals_upto(p, moves, m, piece, moves.len() as int))
}

/// The piece letter of a move's text: none for a pawn.
pub open spec fn letter_part(piece: Piece) -> Seq<char> {
    if piece != Piece::Pawn { seq![upper_letter(piece)] } else { seq![] }
}

/// The capture mark of a move's text, with a pawn's file.
pub open spec fn capture_part(p: Position, m: Move, piece: Piece) -> Seq<char> {
    if p.piece_on(m.dest, p.state.to_move.opp()) is Some {
        (if piece == Piece::Pawn { seq![square_name(m.src)[0]] } else { seq![] }) + seq!['x']
    } else {
        seq![]
    }
}

/// The en passant mark of a move's text: a pawn moving other than straight ahead onto an
/// empty square.
pub open spec fn en_passant_part(p: Position, m: Move, piece: Piece) -> Seq<char> {
    let diff = m.src.abs_diff_spec(m.dest);
    if piece == Piece::Pawn && diff != 8 && diff != 16 && !(p.piece_on(m.dest, p.state.to_move.opp()) is Some) {
        seq![square_name(m.src)[0], 'x']
    } else {
        seq![]
    }
}

/// The promotion letter of a move's text.
pub open spec fn promotion_part(m: Move) -> Seq<char> {
    match m.promotion {
        Some(pp) => seq![upper_letter(pp)],
        None => seq![],
    }
}

/// The text of a move before its check or mate mark.
pub open spec fn san_body(g: MoveGen, p: Position, m: Move, piece: Piece) -> Seq<char> {
    letter_part(piece) + capture_part(p, m, piece) + en_passant_part(p, m, piece) + (if piece == Piece::Rook || piece
        == Piece::Queen {
        disamb_part(g, p, m, piece)
    } else {
        seq![]
    }) + square_name(m.dest) + promotion_part(m)
}

/// The mark after a move: `+` when it gives check, `#` when it leaves the other side no
/// move, nothing otherwise (nor when the other side has no king).
pub open spec fn san_mark(g: MoveGen, after: Position) -> Seq<char> {
    if !has_king(after) {
        seq![]
    } else if g.all_pieces.checkers_word(after) != 0 {
        seq!['+']
    } else if g.all_pieces.moves_spec(after).len() == 0 {
        seq!['#']
    } else {
        seq![]
    }
}

/// The text of a move other than a castling: its body and mark.
#[verifier::opaque]
pub open spec fn san_rest(g: MoveGen, p: Position, m: Move, piece: Piece) -> Seq<char> {
    san_body(g, p, m, piece) + san_mark(g, p.spec_make_move(m))
}

/// The text of a castling: `O-O` toward the h-file, `O-O-O` toward the a-file.
pub open spec fn castle_text(m: Move) -> Seq<char> {
    if m.src.idx() < m.dest.idx() { seq!['O', '-', 'O'] } else { seq!['O', '-', 'O', '-', 'O'] }
}

/// The text of a move that can be made: a castling as `O-O` or `O-O-O`, any other move
/// as its body and mark.
pub open spec fn san_text(g: MoveGen, p: Position, m: Move) -> Seq<char> {
    let piece = p.piece_on(m.src, p.state.to_move).unwrap();
    if piece == Piece::King && m.src.abs_diff_spec(m.dest) == 2 {
        castle_text(m)
    } else {
        san_rest(g, p, m, piece)
    }
}

/// A move that gives check is written with `+` at the end: for every move of a piece of
/// the side to move other than a castling, after which the side then to move has a king
/// and some piece gives it check, the text's last character is `+`.
pub proof fn lemma_check_is_marked(g: MoveGen, p: Position, m: Move)
    requires
        p.piece_on(m.src, p.state.to_move) is Some,
        !(p.piece_on(m.src, p.state.to_move).unwrap() == Piece::King && m.src.abs_diff_spec(m.dest) == 2),
        has_king(p.spec_make_move(m)),
        g.all_pieces.checkers_word(p.spec_make_move(m)) != 0,
    ensures
        san_text(g, p, m).len() > 0,
        san_text(g, p, m).last() == '+',
{
    reveal(san_rest);
    let piece = p.piece_on(m.src, p.state.to_move).unwrap();
    let body = san_body(g, p, m, piece);
    assert(san_text(g, p, m) == body + seq!['+']);
}

/// Only a check is written with `+`: for every move of a piece of the side to move after
/// which no piece gives check (or the side then to move has no king), the text does not
/// end with `+`.
pub proof fn lemma_no_check_no_mark(g: MoveGen, p: Position, m: Move)
    requires
        p.piece_on(m.src, p.state.to_move) is Some,
        !has_king(p.spec_make_move(m)) || g.all_pieces.checkers_word(p.spec_make_move(m)) == 0,
    ensures
        san_text(g, p, m).len() > 0,
        san_text(g, p, m).last() != '+',
{
    reveal(san_rest);
    let piece = p.piece_on(m.src, p.state.to_move).unwrap();
    if !(piece == Piece::King && m.src.abs_diff_spec(m.dest) == 2) {
        let body = san_body(g, p, m, piece);
        let mark = san_mark(g, p.spec_make_move(m));
        Square::lemma_idx_injective(m.dest, m.dest);
        let name = square_name(m.dest);
        assert(name[1] != '+');
        let pre = letter_part(piece) + capture_part(p, m, piece) + en_passant_part(p, m, piece) + (if piece == Piece::Rook
            || piece == Piece::Queen {
            disamb_part(g, p, m, piece)
        } else {
            seq![]
        });
        assert(body == pre + name + promotion_part(m));
        if mark.len() == 0 {
            assert(san_text(g, p, m) == body);
            if m.promotion is Some {
                assert(body.last() == upper_letter(m.promotion.unwrap()));
            } else {
                assert(body.last() == name[1]);
            }
        } else {
            assert(mark == seq!['#']);
            assert(san_text(g, p, m) == body + mark);
        }
    }
}

/// Appends the name of a square.
pub(crate) fn push_square_name(out: &mut String, sq: Square)
    ensures
        final(out)@ == old(out)@ + square_name(sq),
{
    let (rank, file) = sq.to_rank_file();
    push_char(out, (file + 97) as char);
    push_char(out, (rank + 49) as char);
    assert(final(out)@ =~= old(out)@ + square_name(sq));
}

/// The square's name with its file in capitals, as in `E2`.
fn upper_square_string(sq: Square) -> (r: String)
    ensures
        r@ == upper_square_name(sq),
{
    let (rank, file) = sq.to_rank_file();
    let mut s = String::new();
    push_char(&mut s, (file + 65) as char);
    push_char(&mut s, (rank + 49) as char);
    assert(s@ =~= upper_square_name(sq));
    s
}

/// The name of a square as a string.
fn square_string(sq: Square) -> (r: String)
    ensures
        r@ == square_name(sq),
{
    let mut s = String::new();
    push_square_name(&mut s, sq);
    assert(s@ =~= square_name(sq));
    s
}

/// The rivals of a rook or queen move and the disambiguation they call for.
fn push_disambiguation(out: &mut String, g: &MoveGen, position: &Position, mve: Move, piece: Piece)
    requires
        g.wf(),
        has_king(*position),
    ensures
        final(out)@ == old(out)@ + disamb_part(*g, *position, mve, piece),
{
    reveal(disamb_part);
    let side = position.state.to_move;
    let moves = g.all_pieces.gen_moves(position);
    let mut rivals: Vec<Move> = Vec::new();
    let mut i: usize = 0;
    while i < moves.len()
        invariant
            i <= moves.len(),
            side == position.state.to_move,
            rivals@ == rivals_upto(*position, moves@, mve, piece, i as int),
        decreases moves.len() - i,
    {
        let o = moves[i];
        let same_piece = match position.is_piece_at(o.src, side) {
            Some(q) => q == piece,
            None => false,
        };
        if o.dest == mve.dest && o.src != mve.src && same_piece {
            rivals.push(o);
        }
        proof {
            assert(rivals@ =~= rivals_upto(*position, moves@, mve, piece, i + 1));
        }
        i += 1;
    }
    let (src_rank, src_file) = mve.src.to_rank_file();
    let mut same_rank = false;
    let mut same_file = false;
    let mut k: usize = 0;
    while k < rivals.len()
        invariant
            k <= rivals.len(),
            src_rank == mve.src.rank(),
            src_file == mve.src.file(),
            same_rank == exists|j: int| 0 <= j < k && #[trigger] rivals@[j].src.rank() == mve.src.rank(),
            same_file == exists|j: int| 0 <= j < k && #[trigger] rivals@[j].src.file() == mve.src.file(),
        decreases rivals.len() - k,
    {
        let (r, f) = rivals[k].src.to_rank_file();
        if r == src_rank {
            same_rank = true;
        }
        if f == src_file {
            same_file = true;
        }
        k += 1;
    }
    let name = square_string(mve.src);
    let ghost before = out@;
    if same_rank || rivals.len() > 1 {
        push_char(out, (src_file + 97) as char);
    }
    if same_file || rivals.len() > 1 {
        push_char(out, (src_rank + 49) as char);
    }
    assert(out@ =~= before + disambiguation(mve, rivals@));
}

/// The text of a move other than a castling, before its mark.
fn san_body_string(position: &Position, mve: Move, move_gen: &MoveGen, src_piece: Piece) -> (r: String)
    requires
        move_gen.wf(),
        has_king(*position),
    ensures
        r@ == san_body(*move_gen, *position, mve, src_piece),
{
    let side = position.state.to_move;
    let opp_side = side.opposite_side();
    let move_abs_diff = mve.src.abs_diff(mve.dest);
    let mut res = String::new();
    let (_, src_file) = mve.src.to_rank_file();
    let file_char = (src_file + 97) as char;
    assert(file_char == square_name(mve.src)[0]);
    if src_piece != Piece::Pawn {
        push_char(&mut res, upper_letter_of(src_piece));
    }
    let ghost s1 = letter_part(src_piece);
    assert(res@ =~= s1);
    let captures = position.is_piece_at(mve.dest, opp_side).is_some();
    if captures {
        if src_piece == Piece::Pawn {
            push_char(&mut res, file_char);
        }
        push_char(&mut res, 'x');
    }
    let ghost s2 = s1 + capture_part(*position, mve, src_piece);
    assert(res@ =~= s2);
    // En passant
    if src_piece == Piece::Pawn && (move_abs_diff != 8 && move_abs_diff != 16) && !captures {
        push_char(&mut res, file_char);
        push_char(&mut res, 'x');
    }
    let ghost s3 = s2 + en_passant_part(*position, mve, src_piece);
    assert(res@ =~= s3);
    // Tell a rook or queen apart from another of its kind reaching the same square.
    if src_piece == Piece::Rook || src_piece == Piece::Queen {
        push_disambiguation(&mut res, move_gen, position, mve, src_piece);
    }
    let ghost s4 = s3 + (if src_piece == Piece::Rook || src_piece == Piece::Queen {
        disamb_part(*move_gen, *position, mve, src_piece)
    } else {
        seq![]
    });
    assert(res@ =~= s4);
    push_square_name(&mut res, mve.dest);
    if let Some(promotion) = mve.promotion {
        push_char(&mut res, upper_letter_of(promotion));
    }
    assert(res@ =~= s4 + square_name(mve.dest) + promotion_part(mve));
    res
}

/// Appends the mark of the position after a move.
fn push_mark(res: &mut String, move_gen: &MoveGen, after: &Position)
    requires
        move_gen.wf(),
    ensures
        final(res)@ == old(res)@ + san_mark(*move_gen, *after),
{
    if !after.pieces.get(Piece::King).get(after.state.to_move).is_empty() {
        if !move_gen.gen_checkers(after).is_empty() {
            push_char(res, '+');
        } else {
            let possible_moves_after = move_gen.all_pieces.gen_moves(after);
            if possible_moves_after.len() == 0 {
                push_char(res, '#');
            }
        }
    }
    assert(final(res)@ =~= old(res)@ + san_mark(*move_gen, *after));
}

/// Writes a move of the side to move in standard algebraic notation: the piece letter
/// (none for a pawn), the capture mark (with a pawn's file), the file and rank a rook or
/// queen needs to tell it apart from another of its kind reaching the same square, the
/// destination, the promotion letter, and a mark: `+` when the move gives check (mate
/// included), `#` when it leaves the other side without a move and not in check; a
/// castling as `O-O` or `O-O-O`.
pub fn move_to_algebraic_notation(position: &Position, mve: Move, move_gen: &MoveGen) -> (r: Result<String, AlgebraicNotationError>)
    requires
        move_gen.wf(),
        has_king(*position),
    ensures
        position.piece_on(mve.src, position.state.to_move) is None ==> (r matches Err(AlgebraicNotationError::NoPieceAtSrc(t))
            && t@ == upper_square_name(mve.src)),
        position.piece_on(mve.src, position.state.to_move) is Some ==> match r {
            Ok(s) => position.make_move_ok(mve) && s@ == san_text(*move_gen, *position, mve),
            Err(e) => !position.make_move_ok(mve) && (e matches AlgebraicNotationError::InvalidMove(t) && t@ == square_name(mve.src)),
        },
{
    let side = position.state.to_move;
    let src_piece = match position.is_piece_at(mve.src, side) {
        Some(p) => p,
        None => {
            return Err(AlgebraicNotationError::NoPieceAtSrc(upper_square_string(mve.src)));
        },
    };
    if !position.can_make_move(mve) {
        return Err(AlgebraicNotationError::InvalidMove(square_string(mve.src)));
    }
    // Castling
    if src_piece == Piece::King && mve.src.abs_diff(mve.dest) == 2 {
        let mut res = String::new();
        push_char(&mut res, 'O');
        push_char(&mut res, '-');
        push_char(&mut res, 'O');
        if mve.src.to_u8() > mve.dest.to_u8() {
            push_char(&mut res, '-');
            push_char(&mut res, 'O');
        }
        assert(res@ =~= castle_text(mve));
        return Ok(res);
    }
    let mut res = san_body_string(position, mve, move_gen, src_piece);
    let mut move_pos = *position;
    move_pos.make_move(mve);
    push_mark(&mut res, move_gen, &move_pos);
    proof {
        reveal(san_rest);
    }
    Ok(res)
}

} // verus!
