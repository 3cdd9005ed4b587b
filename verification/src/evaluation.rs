//! Evaluating positions: scores from the side to move's point of view, with mates counted
//! in plies.
use vstd::prelude::*;

use crate::bitboard::Square;
use crate::move_gen::MoveGen;
use crate::perft::has_king;
use crate::position::{Piece, Position, Side};
use crate::text::push_char;

verus! {

/// An evaluation of a position, from the side to move's point of view. Scores near
/// `MATE_BASE` stand for mates: a win in an odd number of plies above zero, a loss in an
/// even number of plies below zero.
#[derive(Clone, Copy, Debug, PartialEq, Eq, Structural, PartialOrd, Ord, Hash)]
pub struct Eval(pub i32);

/// The score of a mate on the board now.
pub const MATE_BASE: i32 = 30000;

/// The score of a mate in `ply` plies: a win for an odd count, a loss for an even one,
/// each ply further from the mate one step closer to zero.
pub open spec fn spec_mate_in(ply: int) -> int {
    if ply % 2 == 0 {
        -MATE_BASE + ply / 2
    } else {
        MATE_BASE - ply / 2
    }
}

/// How many plies from a mate a score is, as `is_mate` counts them.
pub open spec fn plies_from_mate(v: int) -> int {
    if v >= 0 {
        (MATE_BASE - v) * 2 + 1
    } else {
        (MATE_BASE + v) * 2
    }
}

/// A score no further than a mate on the board from zero.
pub open spec fn in_range(v: int) -> bool {
    -MATE_BASE <= v <= MATE_BASE
}

/// The mate a score stands for, if it is within 250 plies of one.
pub open spec fn spec_is_mate(v: int) -> Option<u8> {
    if plies_from_mate(v) <= 250 {
        Some(plies_from_mate(v) as u8)
    } else {
        None
    }
}

/// The same evaluation from the other side's point of view.
pub open spec fn spec_flip(v: int) -> int {
    match spec_is_mate(v) {
        Some(m) => spec_mate_in(m + 1),
        None => -v,
    }
}

impl Eval {
    /// A drawn position.
    pub fn draw() -> (r: Eval)
        ensures
            r.0 == 0,
    {
        Eval(0)
    }

    /// The best score: mate delivered in one ply.
    pub fn max_eval() -> (r: Eval)
        ensures
            r.0 == spec_mate_in(1),
    {
        Eval::mate_in(1)
    }

    /// The worst score: mated now.
    pub fn min_eval() -> (r: Eval)
        ensures
            r.0 == spec_mate_in(0),
    {
        Eval::mate_in(0)
    }

    /// The score of a mate in `ply` plies.
    pub fn mate_in(ply: u8) -> (r: Eval)
        ensures
            r.0 == spec_mate_in(ply as int),
            in_range(r.0 as int),
    {
        if ply % 2 == 0 {
            Eval(-MATE_BASE + (ply as i32 / 2))
        } else {
            Eval(MATE_BASE - (ply as i32 / 2))
        }
    }

    /// The number of plies to the mate the score stands for, when it is within 250.
    pub fn is_mate(&self) -> (r: Option<u8>)
        requires
            in_range(self.0 as int),
        ensures
            r == spec_is_mate(self.0 as int),
    {
        let from_mate = if self.0 >= 0 {
            (MATE_BASE - self.0) * 2 + 1
        } else {
            (MATE_BASE + self.0) * 2
        };
        if from_mate <= 250 {
            return Some(from_mate as u8);
        }
        None
    }

    /// The evaluation from the other side's point of view: a mate one ply further away,
    /// or the score negated.
    pub fn flip(&self) -> (r: Eval)
        requires
            in_range(self.0 as int),
        ensures
            r.0 == spec_flip(self.0 as int),
            in_range(r.0 as int),
    {
        if let Some(mate) = self.is_mate() {
            Eval::mate_in(mate + 1)
        } else {
            Eval(-self.0)
        }
    }
}

/// A mate in `n` plies, for `n` up to 250, reads back as a mate in `n` plies.
pub proof fn lemma_mate_in_is_mate(n: u8)
    requires
        n <= 250,
    ensures
        spec_is_mate(spec_mate_in(n as int)) == Some(n),
{
}

/// Flipping a score that stands for no mate negates it, and flipping twice gives it back.
pub proof fn lemma_flip_twice(v: int)
    requires
        in_range(v),
        spec_is_mate(v) is None,
    ensures
        spec_flip(v) == -v,
        spec_flip(spec_flip(v)) == v,
{
}

/// The value of a piece in hundredths of a pawn.
pub open spec fn spec_piece_value(piece: Piece) -> int {
    match piece {
        Piece::Pawn => 100,
        Piece::Knight => 320,
        Piece::Bishop => 330,
        Piece::Rook => 500,
        Piece::Queen => 900,
        Piece::King => 2000,
    }
}

/// The value of a piece in hundredths of a pawn; the king's is large but far from
/// overflowing.
pub fn piece_value(piece: Piece) -> (r: i32)
    ensures
        r == spec_piece_value(piece),
{
    match piece {
        Piece::Pawn => 100,
        Piece::Knight => 320,
        Piece::Bishop => 330,
        Piece::Rook => 500,
        Piece::Queen => 900,
        Piece::King => 2000,
    }
}

/// Piece-square bonuses, by square number from A1: pawns.
pub const PAWN_TABLE: [i8; 64] = [
    0, 0, 0, 0, 0, 0, 0, 0,
    5, 10, 10, -20, -20, 10, 10, 5,
    5, -5, -10, 0, 0, -10, -5, 5,
    0, 0, 0, 20, 20, 0, 0, 0,
    5, 5, 10, 25, 25, 10, 5, 5,
    10, 10, 20, 30, 30, 20, 10, 10,
    50, 50, 50, 50, 50, 50, 50, 50,
    0, 0, 0, 0, 0, 0, 0, 0,
];

/// Piece-square bonuses, by square number from A1: the king early and in the middle game.
pub const KING_MIDDLE_TABLE: [i8; 64] = [
    20, 30, 10, 0, 0, 10, 30, 20,
    20, 20, 0, 0, 0, 0, 20, 20,
    -10, -20, -20, -20, -20, -20, -20, -10,
    -20, -30, -30, -40, -40, -30, -30, -20,
    -30, -40, -40, -50, -50, -40, -40, -30,
    -30, -40, -40, -50, -50, -40, -40, -30,
    -30, -40, -40, -50, -50, -40, -40, -30,
    -30, -40, -40, -50, -50, -40, -40, -30,
];

/// Piece-square bonuses, by square number from A1: the king in the end game.
pub const KING_END_TABLE: [i8; 64] = [
    -50, -30, -30, -30, -30, -30, -30, -50,
    -30, -30, 0, 0, 0, 0, -30, -30,
    -30, -10, 20, 30, 30, 20, -10, -30,
    -30, -10, 30, 40, 40, 30, -10, -30,
    -30, -10, 30, 40, 40, 30, -10, -30,
    -30, -10, 20, 30, 30, 20, -10, -30,
    -30, -20, -10, 0, 0, -10, -20, -30,
    -50, -40, -30, -20, -20, -30, -40, -50,
];

/// Piece-square bonuses, by square number from A1: knights.
pub const KNIGHT_TABLE: [i8; 64] = [
    -50, -40, -30, -30, -30, -30, -40, -50,
    -40, -20, 0, 5, 5, 0, -20, -40,
    -30, 5, 10, 15, 15, 10, 5, -30,
    -30, 0, 15, 20, 20, 15, 0, -30,
    -30, 5, 15, 20, 20, 15, 5, -30,
    -30, 0, 10, 15, 15, 10, 0, -30,
    -40, -20, 0, 0, 0, 0, -20, -40,
    -50, -40, -30, -30, -30, -30, -40, -50,
];

/// Piece-square bonuses, by square number from A1: bishops.
pub const BISHOP_TABLE: [i8; 64] = [
    -20, -10, -10, -10, -10, -10, -10, -20,
    -10, 5, 0, 0, 0, 0, 5, -10,
    -10, 10, 10, 10, 10, 10, 10, -10,
    -10, 0, 10, 10, 10, 10, 0, -10,
    -10, 5, 5, 10, 10, 5, 5, -10,
    -10, 0, 5, 10, 10, 5, 0, -10,
    -10, 0, 0, 0, 0, 0, 0, -10,
    -20, -10, -10, -10, -10, -10, -10, -20,
];

/// Piece-square bonuses, by square number from A1: rooks.
pub const ROOK_TABLE: [i8; 64] = [
    0, 0, 0, 5, 5, 0, 0, 0,
    -5, 0, 0, 0, 0, 0, 0, -5,
    -5, 0, 0, 0, 0, 0, 0, -5,
    -5, 0, 0, 0, 0, 0, 0, -5,
    -5, 0, 0, 0, 0, 0, 0, -5,
    -5, 0, 0, 0, 0, 0, 0, -5,
    5, 10, 10, 10, 10, 10, 10, 5,
    0, 0, 0, 0, 0, 0, 0, 0,
];

/// Piece-square bonuses, by square number from A1: queens.
pub const QUEEN_TABLE: [i8; 64] = [
    -20, -10, -10, -5, -5, -10, -10, -20,
    -10, 0, 5, 0, 0, 0, 0, -10,
    -10, 5, 5, 5, 5, 5, 0, -10,
    0, 0, 5, 5, 5, 5, 0, -5,
    -5, 0, 5, 5, 5, 5, 0, -5,
    -10, 0, 5, 5, 5, 5, 0, -10,
    -10, 0, 0, 0, 0, 0, 0, -10,
    -20, -10, -10, -5, -5, -10, -10, -20,
];

/// The bonus of a piece on the square with number `i`, early or in the middle game or
/// not.
pub open spec fn spec_bonus(piece: Piece, i: int, early_or_mid_game: bool) -> int {
    match piece {
        Piece::Pawn => PAWN_TABLE[i] as int,
        Piece::King => if early_or_mid_game { KING_MIDDLE_TABLE[i] as int } else { KING_END_TABLE[i] as int },
        Piece::Knight => KNIGHT_TABLE[i] as int,
        Piece::Bishop => BISHOP_TABLE[i] as int,
        Piece::Rook => ROOK_TABLE[i] as int,
        Piece::Queen => QUEEN_TABLE[i] as int,
    }
}

/// The bonus of a piece on a square, from the tables of the simplified evaluation
/// function.
pub fn get_piece_square_bonus(piece: Piece, square: Square, is_early_or_mid_game: bool) -> (r: i32)
    ensures
        r == spec_bonus(piece, square.idx(), is_early_or_mid_game),
        -128 <= r < 128,
{
    let i = square.to_u8() as usize;
    let v = match piece {
        Piece::Pawn => PAWN_TABLE[i],
        Piece::King => if is_early_or_mid_game { KING_MIDDLE_TABLE[i] } else { KING_END_TABLE[i] },
        Piece::Knight => KNIGHT_TABLE[i],
        Piece::Bishop => BISHOP_TABLE[i],
        Piece::Rook => ROOK_TABLE[i],
        Piece::Queen => QUEEN_TABLE[i],
    };
    v as i32
}

/// What a piece of one kind and side on a square adds to White's score: its value and
/// bonus, the bonus of a Black piece read from the flipped square, counted against White.
pub open spec fn piece_term(p: Position, piece: Piece, side: Side, sq: Square) -> int {
    if p.pieces.board(piece, side).has(sq) {
        if side == Side::White {
            spec_piece_value(piece) + spec_bonus(piece, sq.idx(), true)
        } else {
            -(spec_piece_value(piece) + spec_bonus(piece, sq.flipped().idx(), true))
        }
    } else {
        0
    }
}

/// What the pieces on one square add to White's score.
pub open spec fn square_term(p: Position, sq: Square) -> int {
    piece_term(p, Piece::Pawn, Side::White, sq) + piece_term(p, Piece::Knight, Side::White, sq)
        + piece_term(p, Piece::Bishop, Side::White, sq) + piece_term(p, Piece::Rook, Side::White, sq)
        + piece_term(p, Piece::Queen, Side::White, sq) + piece_term(p, Piece::King, Side::White, sq)
        + piece_term(p, Piece::Pawn, Side::Black, sq) + piece_term(p, Piece::Knight, Side::Black, sq)
        + piece_term(p, Piece::Bishop, Side::Black, sq) + piece_term(p, Piece::Rook, Side::Black, sq)
        + piece_term(p, Piece::Queen, Side::Black, sq) + piece_term(p, Piece::King, Side::Black, sq)
}

/// White's score over the squares with numbers below `n`.
pub open spec fn score_upto(p: Position, n: int) -> int
    decreases n,
{
    if n <= 0 {
        0
    } else {
        score_upto(p, n - 1) + square_term(p, Square::spec_from_idx(n - 1))
    }
}

/// White's score: the value and bonus of every piece, White's counted for and Black's
/// against.
pub open spec fn white_score(p: Position) -> int {
    score_upto(p, 64)
}

/// The score of the side to move.
pub open spec fn side_score(p: Position) -> int {
    if p.state.to_move == Side::Black {
        -white_score(p)
    } else {
        white_score(p)
    }
}

/// No pawn on the board is worth less than nothing to its side: every pawn bonus is
/// above minus a pawn.
proof fn lemma_pawn_bonus_bound(i: int)
    requires
        0 <= i < 64,
    ensures
        PAWN_TABLE[i] as int > -100,
{
}

/// Every piece is worth more than its worst placement bonus costs.
proof fn lemma_piece_worth_positive(piece: Piece, i: int)
    requires
        0 <= i < 64,
    ensures
        spec_piece_value(piece) + spec_bonus(piece, i, true) > 0,
{
    if piece == Piece::Pawn {
        lemma_pawn_bonus_bound(i);
    }
}

/// The side has no piece on the board.
pub open spec fn side_empty(p: Position, side: Side) -> bool {
    forall|piece: Piece| #[trigger] p.pieces.board(piece, side).0 == 0
}

/// The side has a piece on the square.
pub open spec fn side_has_piece_on(p: Position, side: Side, sq: Square) -> bool {
    exists|piece: Piece| #[trigger] p.pieces.board(piece, side).has(sq)
}

/// What the squares below `n` add to the side's own score, when the other side has no
/// piece: nothing negative, and something when the side has a piece there.
proof fn lemma_score_upto_one_side(p: Position, side: Side, n: int)
    requires
        side_empty(p, side.opp()),
        0 <= n <= 64,
    ensures
        side == Side::White ==> score_upto(p, n) >= 0,
        side == Side::Black ==> score_upto(p, n) <= 0,
        (exists|k: int| 0 <= k < n && side_has_piece_on(p, side, #[trigger] Square::spec_from_idx(k))) ==> (if side == Side::White {
            score_upto(p, n) > 0
        } else {
            score_upto(p, n) < 0
        }),
    decreases n,
{
    if n > 0 {
        lemma_score_upto_one_side(p, side, n - 1);
        let sq = Square::spec_from_idx(n - 1);
        Square::lemma_idx_injective(sq, sq);
        Square::lemma_idx_injective(sq.flipped(), sq.flipped());
        crate::bits::lemma_bit_zero(sq.idx() as u64);
        assert forall|piece: Piece| !#[trigger] p.pieces.board(piece, side.opp()).has(sq) by {
            assert(p.pieces.board(piece, side.opp()).0 == 0);
        }
        assert forall|piece: Piece| #![trigger piece_term(p, piece, side, sq)]
            (if side == Side::White { piece_term(p, piece, side, sq) >= 0 } else { piece_term(p, piece, side, sq) <= 0 })
            && (p.pieces.board(piece, side).has(sq) ==> piece_term(p, piece, side, sq) != 0) by {
            lemma_piece_worth_positive(piece, sq.idx());
            lemma_piece_worth_positive(piece, sq.flipped().idx());
        }
        assert(piece_term(p, Piece::Pawn, side, sq) == piece_term(p, Piece::Pawn, side, sq));
        assert(piece_term(p, Piece::Knight, side, sq) == piece_term(p, Piece::Knight, side, sq));
        assert(piece_term(p, Piece::Bishop, side, sq) == piece_term(p, Piece::Bishop, side, sq));
        assert(piece_term(p, Piece::Rook, side, sq) == piece_term(p, Piece::Rook, side, sq));
        assert(piece_term(p, Piece::Queen, side, sq) == piece_term(p, Piece::Queen, side, sq));
        assert(piece_term(p, Piece::King, side, sq) == piece_term(p, Piece::King, side, sq));
        if exists|k: int| 0 <= k < n && side_has_piece_on(p, side, #[trigger] Square::spec_from_idx(k)) {
            let k = choose|k: int| 0 <= k < n && side_has_piece_on(p, side, #[trigger] Square::spec_from_idx(k));
            if k == n - 1 {
                let piece = choose|piece: Piece| #[trigger] p.pieces.board(piece, side).has(sq);
                assert(piece_term(p, piece, side, sq) != 0);
            } else {
                assert(side_has_piece_on(p, side, Square::spec_from_idx(k)));
            }
        }
    }
}

/// The score is the side to move's: a side to move with pieces facing a side with none
/// scores above zero, whichever side it is.
pub proof fn lemma_lone_side_to_move_scores_positive(p: Position, sq: Square)
    requires
        side_empty(p, p.state.to_move.opp()),
        side_has_piece_on(p, p.state.to_move, sq),
    ensures
        side_score(p) > 0,
{
    Square::lemma_idx_injective(sq, sq);
    Square::lemma_from_idx(sq.idx());
    Square::lemma_idx_injective(sq, Square::spec_from_idx(sq.idx()));
    assert(side_has_piece_on(p, p.state.to_move, Square::spec_from_idx(sq.idx())));
    lemma_score_upto_one_side(p, p.state.to_move, 64);
}

/// The score is from the side to move's point of view: the same pieces with the other side
/// to move score the negation.
pub proof fn lemma_score_flips_with_side_to_move(p: Position, q: Position)
    requires
        p.pieces == q.pieces,
        p.state.to_move != q.state.to_move,
    ensures
        side_score(q) == -side_score(p),
{
    assert forall|n: int| 0 <= n <= 64 implies #[trigger] score_upto(p, n) == score_upto(q, n) by {
        lemma_score_upto_same_pieces(p, q, n);
    }
}

proof fn lemma_score_upto_same_pieces(p: Position, q: Position, n: int)
    requires
        p.pieces == q.pieces,
    ensures
        score_upto(p, n) == score_upto(q, n),
    decreases n,
{
    if n > 0 {
        lemma_score_upto_same_pieces(p, q, n - 1);
    }
}

/// What one piece adds to White's score, for one kind and side.
fn piece_term_of(p: &Position, piece: Piece, side: Side, sq: Square) -> (r: i32)
    ensures
        r == piece_term(*p, piece, side, sq),
        -2128 <= r <= 2128,
{
    if p.pieces.get(piece).get(side).is_square_set(sq) {
        let target = if side == Side::Black {
            let f = sq.flip();
            proof {
                Square::lemma_idx_injective(f, sq.flipped());
                Square::lemma_from_idx((7 - sq.rank()) * 8 + sq.file());
            }
            f
        } else {
            sq
        };
        let val = piece_value(piece) + get_piece_square_bonus(piece, target, true);
        if side == Side::White {
            val
        } else {
            -val
        }
    } else {
        0
    }
}

/// The score the pieces give the side to move: the value and piece-square bonus of each
/// piece, added for the side to move's and subtracted for the other side's.
pub fn material_score(p: &Position) -> (r: i32)
    ensures
        r == side_score(*p),
{
    let mut acc: i32 = 0;
    let mut i: u8 = 0;
    while i < 64
        invariant
            i <= 64,
            acc == score_upto(*p, i as int),
            -(i as int) * 25536 <= acc <= (i as int) * 25536,
        decreases 64 - i,
    {
        let sq = Square::from_u8(i);
        proof {
            Square::lemma_from_idx(i as int);
            Square::lemma_idx_injective(sq, Square::spec_from_idx(i as int));
        }
        let mut t: i32 = 0;
        t = t + piece_term_of(p, Piece::Pawn, Side::White, sq);
        t = t + piece_term_of(p, Piece::Knight, Side::White, sq);
        t = t + piece_term_of(p, Piece::Bishop, Side::White, sq);
        t = t + piece_term_of(p, Piece::Rook, Side::White, sq);
        t = t + piece_term_of(p, Piece::Queen, Side::White, sq);
        t = t + piece_term_of(p, Piece::King, Side::White, sq);
        t = t + piece_term_of(p, Piece::Pawn, Side::Black, sq);
        t = t + piece_term_of(p, Piece::Knight, Side::Black, sq);
        t = t + piece_term_of(p, Piece::Bishop, Side::Black, sq);
        t = t + piece_term_of(p, Piece::Rook, Side::Black, sq);
        t = t + piece_term_of(p, Piece::Queen, Side::Black, sq);
        t = t + piece_term_of(p, Piece::King, Side::Black, sq);
        acc = acc + t;
        i += 1;
    }
    if p.state.to_move == Side::Black {
        -acc
    } else {
        acc
    }
}

/// The evaluator of positions by material and piece placement.
#[derive(Clone, Copy, Debug, PartialEq, Eq, Structural)]
pub struct PositionEvaluator;

/// The evaluation of a position, from the side to move's point of view: a draw when the
/// half move clock is at fifty, a mate or a draw when the side to move has no move, and
/// otherwise the material and placement score.
pub open spec fn spec_evaluate(g: MoveGen, p: Position) -> int {
    if p.state.half_move_clock == 50 {
        0
    } else if g.all_pieces.moves_spec(p).len() == 0 {
        if g.all_pieces.checkers_word(p) != 0 { spec_mate_in(0) } else { 0 }
    } else {
        side_score(p)
    }
}

impl PositionEvaluator {
    /// Evaluates the position for the side to move: a draw at fifty moves without capture
    /// or pawn move, mated or stalemated without a move, else the value and placement of
    /// the pieces, the side to move's counted for and the other side's against.
    pub fn evaluate(&self, position: &Position, move_gen: &MoveGen) -> (r: Eval)
        requires
            move_gen.wf(),
            has_king(*position),
        ensures
            r.0 == spec_evaluate(*move_gen, *position),
    {
        if position.state.half_move_clock == 50 {
            return Eval::draw();
        }
        let moves = move_gen.all_pieces.gen_moves(position);
        if moves.len() == 0 {
            if !move_gen.gen_checkers(position).is_empty() {
                return Eval::mate_in(0);
            } else {
                return Eval::draw();
            }
        }
        Eval(material_score(position))
    }
}

/// The decimal digits of a number.
pub open spec fn decimal(n: nat) -> Seq<char>
    decreases n,
{
    if n < 10 {
        seq![((n + '0' as nat) as u32) as char]
    } else {
        decimal(n / 10) + seq![((n % 10 + '0' as nat) as u32) as char]
    }
}

/// An evaluation as the engine prints it: `+m` or `-m` and the plies of a mate (`+` for an
/// even count), else `cp` and the score.
pub open spec fn eval_text(v: int) -> Seq<char> {
    match spec_is_mate(v) {
        Some(m) => seq![if m % 2 == 0 { '+' } else { '-' }, 'm'] + decimal(m as nat),
        None => "cp "@ + if v < 0 { seq!['-'] + decimal((-v) as nat) } else { decimal(v as nat) },
    }
}

/// Appends the decimal digits of a number.
pub(crate) fn push_decimal(out: &mut String, n: u32)
    ensures
        final(out)@ == old(out)@ + decimal(n as nat),
    decreases n,
{
    if n >= 10 {
        push_decimal(out, n / 10);
    }
    push_char(out, ((n % 10) as u8 + 48) as char);
    assert(final(out)@ =~= old(out)@ + decimal(n as nat));
}

impl Eval {
    /// The evaluation as the engine prints it, as in `cp 35` or `+m4`.
    pub fn to_display_string(&self) -> (r: String)
        requires
            in_range(self.0 as int),
        ensures
            r@ == eval_text(self.0 as int),
    {
        let mut out = String::new();
        match self.is_mate() {
            Some(m) => {
                push_char(&mut out, if m % 2 == 0 { '+' } else { '-' });
                push_char(&mut out, 'm');
                push_decimal(&mut out, m as u32);
            },
            None => {
                push_char(&mut out, 'c');
                push_char(&mut out, 'p');
                push_char(&mut out, ' ');
                if self.0 < 0 {
                    push_char(&mut out, '-');
                    push_decimal(&mut out, (-(self.0 as i64)) as u32);
                } else {
                    push_decimal(&mut out, self.0 as u32);
                }
                proof {
                    reveal_strlit("cp ");
                }
            },
        }
        assert(out@ =~= eval_text(self.0 as int));
        out
    }
}

} // verus!
