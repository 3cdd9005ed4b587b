//! Taking a move back restores the position the move was made from.
use vstd::prelude::*;

use crate::bitboard::{shift_dest, Square};
use crate::bits::group_bits;
use crate::position::zobrist_hash::{
    castle_term, en_passant_term, full_hash, lemma_full_hash_state, lemma_full_hash_toggle, piece_key, side_term, state_hash,
    ZOBRIST_BLACK_TO_MOVE_KEY, ZOBRIST_CASTLING_KEYS,
};
use crate::position::{
    backward, forward, right_held, step_sq, without_right, State,
    castle_rook, lemma_rights_keep_boards,
    lemma_boards_ext, lemma_roundtrip_move, lemma_stage_before_boards, lemma_stage_captured_boards,
    lemma_toggle_boards, lemma_toggle_congruent, lemma_with_bit, same_boards, Move, Piece, Position, Side, UnmakeMoveState,
};

verus! {

broadcast use {group_bits, lemma_with_bit};

/// The kind of piece on a square is read off the piece boards alone.
proof fn lemma_piece_on_boards(a: Position, b: Position, sq: Square, side: Side)
    requires
        a.pieces == b.pieces,
    ensures
        a.piece_on(sq, side) == b.piece_on(sq, side),
{
}

/// A square on one of the side's piece boards has a piece of the side.
proof fn lemma_piece_on_some(p: Position, sq: Square, side: Side, piece: Piece)
    requires
        p.pieces.board(piece, side).has(sq),
    ensures
        p.piece_on(sq, side) is Some,
{
}

/// A square holds no piece of the side exactly when none of the side's piece boards has it.
proof fn lemma_piece_on_none(p: Position, sq: Square, side: Side)
    ensures
        (p.piece_on(sq, side) is None) == (forall|x: Piece| !#[trigger] p.pieces.board(x, side).has(sq)),
{
    if p.piece_on(sq, side) is None {
        assert forall|x: Piece| !#[trigger] p.pieces.board(x, side).has(sq) by {
            match x {
                Piece::Pawn => {},
                Piece::Knight => {},
                Piece::Bishop => {},
                Piece::Rook => {},
                Piece::Queen => {},
                Piece::King => {},
            }
        }
    } else {
        let x = p.piece_on(sq, side).unwrap();
        assert(p.pieces.board(x, side).has(sq));
    }
}

/// The piece found on a square stands on that piece's board.
proof fn lemma_piece_on_board(p: Position, sq: Square, side: Side)
    requires
        p.piece_on(sq, side) is Some,
    ensures
        p.pieces.board(p.piece_on(sq, side).unwrap(), side).has(sq),
{
}

/// The piece the move moves.
pub open spec fn mover(p: Position, m: Move) -> Piece {
    p.piece_on(m.src, p.state.to_move).unwrap()
}

/// The piece of the side not to move on the move's destination, if any.
pub open spec fn taken(p: Position, m: Move) -> Option<Piece> {
    p.piece_on(m.dest, p.state.to_move.opp())
}

/// The position with the piece on the move's destination taken off.
pub open spec fn taken_off(p: Position, m: Move) -> Position {
    match taken(p, m) {
        Some(cp) => p.spec_toggle(m.dest, cp, p.state.to_move.opp(), false),
        None => p,
    }
}

/// The move is neither en passant, promotion nor castling.
pub open spec fn is_ordinary(p: Position, m: Move) -> bool {
    &&& !p.is_en_passant(m)
    &&& !p.is_promotion_move(m)
    &&& m.promotion is None
    &&& !(mover(p, m) == Piece::King && m.src.abs_diff_spec(m.dest) == 2)
}

/// Where the pieces the move touches stand before the move.
pub open spec fn board_facts(p: Position, m: Move) -> bool {
    let side = p.state.to_move;
    let piece = mover(p, m);
    &&& p.pieces.board(piece, side).has(m.src)
    &&& !p.pieces.board(piece, side).has(m.dest)
    &&& p.sides.of(side).has(m.src)
    &&& !p.sides.of(side).has(m.dest)
    &&& forall|x: Piece| x != piece ==> !#[trigger] p.pieces.board(x, side).has(m.src)
    &&& taken(p, m) matches Some(cp) ==> {
        &&& p.pieces.board(cp, side.opp()).has(m.dest)
        &&& p.sides.of(side.opp()).has(m.dest)
        &&& forall|x: Piece| x != cp ==> !#[trigger] p.pieces.board(x, side.opp()).has(m.dest)
    }
}

/// The boards of a position around an ordinary move that can be made.
proof fn lemma_ordinary_boards(p: Position, m: Move)
    requires
        p.wf(),
        p.make_move_ok(m),
        is_ordinary(p, m),
    ensures
        board_facts(p, m),
        same_boards(p.stage_before_move(m), taken_off(p, m)),
{
    let side = p.state.to_move;
    let opp = side.opp();
    let piece = mover(p, m);
    let pc = taken_off(p, m);
    let sb = p.stage_before_move(m);
    lemma_stage_captured_boards(p, m);
    lemma_stage_before_boards(p, m);
    lemma_piece_on_board(p, m.src, side);
    if let Some(cp) = taken(p, m) {
        lemma_piece_on_board(p, m.dest, opp);
        lemma_toggle_boards(p, m.dest, cp, opp, false);
    }
    assert(forall|x: Piece| #[trigger] pc.pieces.board(x, side) == p.pieces.board(x, side));
    assert(sb.piece_on(m.dest, side) is None);
    lemma_piece_on_boards(sb, pc, m.dest, side);
    lemma_piece_on_none(pc, m.dest, side);
    assert(pc.pieces.board(piece, side) == p.pieces.board(piece, side));
    lemma_piece_on_none(p, m.dest, side);
}

/// The boards and the side to move after an ordinary move.
proof fn lemma_ordinary_make(p: Position, m: Move)
    requires
        p.wf(),
        p.make_move_ok(m),
        is_ordinary(p, m),
    ensures
        same_boards(p.spec_make_move(m), taken_off(p, m).spec_move_piece(m.src, m.dest, mover(p, m), p.state.to_move)),
        p.spec_make_move(m).state.to_move == p.state.to_move.opp(),
        p.spec_make_move(m).state.full_move_counter == p.stage_common().state.full_move_counter,
{
    let side = p.state.to_move;
    let piece = mover(p, m);
    let pc = taken_off(p, m);
    let sb = p.stage_before_move(m);
    lemma_ordinary_boards(p, m);
    lemma_stage_before_boards(p, m);
    let q = p.spec_make_move(m);
    assert(q == sb.spec_move_piece(m.src, m.dest, piece, side));
    lemma_toggle_congruent(sb, pc, m.src, piece, side, false);
    lemma_toggle_congruent(sb.spec_toggle(m.src, piece, side, false), pc.spec_toggle(m.src, piece, side, false), m.dest, piece, side, true);
    lemma_toggle_boards(sb, m.src, piece, side, false);
    lemma_toggle_boards(sb.spec_toggle(m.src, piece, side, false), m.dest, piece, side, true);
}

/// What the position after a move holds that taking it back relies on.
pub open spec fn after_facts(p: Position, m: Move, q: Position) -> bool {
    &&& q.state.to_move == p.state.to_move.opp()
    &&& q.state.full_move_counter == p.stage_common().state.full_move_counter
    &&& p.state.to_move == Side::Black ==> p.state.full_move_counter < 255
}

/// Restoring the recorded state after a move that was not en passant gives back the state
/// the move was made from, and leaves the boards alone.
proof fn lemma_unmake_state_back(p: Position, m: Move, q: Position)
    requires
        after_facts(p, m, q),
        !p.is_en_passant(m),
    ensures
        q.stage_unmake_state(p.spec_undo_state(m)).state == p.state,
        same_boards(q.stage_unmake_state(p.spec_undo_state(m)), q),
{
}

/// Taking back an ordinary move gives back the boards it was made from.
proof fn lemma_ordinary_unmake_boards(p: Position, m: Move, q: Position)
    requires
        board_facts(p, m),
        is_ordinary(p, m),
        after_facts(p, m, q),
        same_boards(q, taken_off(p, m).spec_move_piece(m.src, m.dest, mover(p, m), p.state.to_move)),
    ensures
        same_boards(q.spec_unmake_move(p.spec_undo_state(m)), p),
        q.spec_unmake_move(p.spec_undo_state(m)).state == p.state,
{
    let side = p.state.to_move;
    let opp = side.opp();
    let piece = mover(p, m);
    let c = taken(p, m);
    let undo = p.spec_undo_state(m);
    let qq = taken_off(p, m).spec_move_piece(m.src, m.dest, piece, side);
    lemma_unmake_state_back(p, m, q);
    let s = q.stage_unmake_state(undo);
    let p1 = s.spec_move_piece(m.dest, m.src, piece, side);
    assert(q.stage_unmake_pieces(undo) == p1);
    lemma_roundtrip_move(p, m.src, m.dest, piece, side, c);
    lemma_toggle_congruent(s, qq, m.dest, piece, side, false);
    lemma_toggle_congruent(s.spec_toggle(m.dest, piece, side, false), qq.spec_toggle(m.dest, piece, side, false), m.src, piece, side, true);
    let qb = qq.spec_move_piece(m.dest, m.src, piece, side);
    lemma_toggle_boards(s, m.dest, piece, side, false);
    lemma_toggle_boards(s.spec_toggle(m.dest, piece, side, false), m.src, piece, side, true);
    let u = q.spec_unmake_move(undo);
    let f = match undo.en_passant_target {
        Some(t) => p1.spec_flip(crate::position::zobrist_hash::en_passant_term(Some(t))),
        None => p1,
    };
    assert(same_boards(f, qb));
    match c {
        Some(cp) => {
            assert(u == f.spec_toggle(m.dest, cp, opp, true));
            lemma_toggle_congruent(f, qb, m.dest, cp, opp, true);
            lemma_toggle_boards(f, m.dest, cp, opp, true);
        },
        None => {
            assert(u == f);
        },
    }
}

/// The checks of taking back an ordinary move pass.
proof fn lemma_ordinary_unmake_ok(p: Position, m: Move, q: Position)
    requires
        board_facts(p, m),
        is_ordinary(p, m),
        after_facts(p, m, q),
        same_boards(q, taken_off(p, m).spec_move_piece(m.src, m.dest, mover(p, m), p.state.to_move)),
    ensures
        q.unmake_move_ok(p.spec_undo_state(m)),
{
    let side = p.state.to_move;
    let opp = side.opp();
    let piece = mover(p, m);
    let c = taken(p, m);
    let undo = p.spec_undo_state(m);
    let pc = taken_off(p, m);
    let qq = pc.spec_move_piece(m.src, m.dest, piece, side);
    lemma_unmake_state_back(p, m, q);
    let s = q.stage_unmake_state(undo);
    if let Some(cp) = c {
        lemma_toggle_boards(p, m.dest, cp, opp, false);
    }
    lemma_toggle_boards(pc, m.src, piece, side, false);
    lemma_toggle_boards(pc.spec_toggle(m.src, piece, side, false), m.dest, piece, side, true);
    lemma_piece_on_boards(s, qq, m.dest, side);
    lemma_piece_on_some(qq, m.dest, side, piece);
    lemma_piece_on_boards(s, qq, m.src, side);
    assert forall|x: Piece| !#[trigger] qq.pieces.board(x, side).has(m.src) by {
        if x != piece {
            assert(!p.pieces.board(x, side).has(m.src));
        }
    }
    lemma_piece_on_none(qq, m.src, side);
    let p1 = s.spec_move_piece(m.dest, m.src, piece, side);
    assert(q.stage_unmake_pieces(undo) == p1);
    if let Some(cp) = c {
        let qb = qq.spec_move_piece(m.dest, m.src, piece, side);
        lemma_toggle_congruent(s, qq, m.dest, piece, side, false);
        lemma_toggle_congruent(s.spec_toggle(m.dest, piece, side, false), qq.spec_toggle(m.dest, piece, side, false), m.src, piece, side, true);
        lemma_toggle_boards(qq, m.dest, piece, side, false);
        lemma_toggle_boards(qq.spec_toggle(m.dest, piece, side, false), m.src, piece, side, true);
        assert forall|x: Piece| !#[trigger] qb.pieces.board(x, opp).has(m.dest) by {
            if x != cp {
                assert(!p.pieces.board(x, opp).has(m.dest));
            }
        }
        lemma_piece_on_none(qb, m.dest, opp);
        lemma_piece_on_boards(p1, qb, m.dest, opp);
    }
}

/// Toggling one bit, square by square: only the toggled square of the piece's board and
/// of its side's board changes.
proof fn lemma_toggle_has(b: Position, sq: Square, piece: Piece, side: Side, on: bool)
    ensures
        forall|x: Piece, s: Side, t: Square| #[trigger] b.spec_toggle(sq, piece, side, on).pieces.board(x, s).has(t)
            == if x == piece && s == side && t == sq { on } else { b.pieces.board(x, s).has(t) },
        forall|s: Side, t: Square| #[trigger] b.spec_toggle(sq, piece, side, on).sides.of(s).has(t)
            == if s == side && t == sq { on } else { b.sides.of(s).has(t) },
        b.spec_toggle(sq, piece, side, on).state == b.state,
{
    lemma_toggle_boards(b, sq, piece, side, on);
}

/// An ordinary move taken back gives back the boards and the state it was made from, and
/// the checks of taking it back pass.
proof fn lemma_ordinary(p: Position, m: Move)
    requires
        p.wf(),
        p.make_move_ok(m),
        is_ordinary(p, m),
    ensures
        p.spec_make_move(m).unmake_move_ok(p.spec_undo_state(m)),
        same_boards(p.spec_make_move(m).spec_unmake_move(p.spec_undo_state(m)), p),
        p.spec_make_move(m).spec_unmake_move(p.spec_undo_state(m)).state == p.state,
{
    let q = p.spec_make_move(m);
    lemma_ordinary_boards(p, m);
    lemma_ordinary_make(p, m);
    assert(after_facts(p, m, q));
    lemma_ordinary_unmake_boards(p, m, q);
    lemma_ordinary_unmake_ok(p, m, q);
}

/// Where the pieces a promotion touches stand before it.
pub open spec fn promotion_facts(p: Position, m: Move) -> bool {
    let side = p.state.to_move;
    &&& p.pieces.board(Piece::Pawn, side).has(m.src)
    &&& p.sides.of(side).has(m.src)
    &&& !p.sides.of(side).has(m.dest)
    &&& forall|x: Piece| !#[trigger] p.pieces.board(x, side).has(m.dest)
    &&& forall|x: Piece| x != Piece::Pawn ==> !#[trigger] p.pieces.board(x, side).has(m.src)
    &&& taken(p, m) matches Some(cp) ==> {
        &&& p.pieces.board(cp, side.opp()).has(m.dest)
        &&& p.sides.of(side.opp()).has(m.dest)
        &&& forall|x: Piece| x != cp ==> !#[trigger] p.pieces.board(x, side.opp()).has(m.dest)
    }
}

/// The move is a promotion to a piece other than a pawn, from a square other than its
/// destination.
pub open spec fn is_proper_promotion(p: Position, m: Move) -> bool {
    &&& !p.is_en_passant(m)
    &&& p.is_promotion_move(m)
    &&& m.promotion matches Some(pp) && pp != Piece::Pawn
    &&& m.src != m.dest
}

/// The boards of a position around a promotion that can be made, and the boards after it.
proof fn lemma_promotion_make(p: Position, m: Move)
    requires
        p.wf(),
        p.make_move_ok(m),
        is_proper_promotion(p, m),
    ensures
        promotion_facts(p, m),
        after_facts(p, m, p.spec_make_move(m)),
        same_boards(p.spec_make_move(m), taken_off(p, m).spec_toggle(m.src, Piece::Pawn, p.state.to_move, false).spec_toggle(
            m.dest, m.promotion.unwrap(), p.state.to_move, true)),
{
    let side = p.state.to_move;
    let opp = side.opp();
    let pp = m.promotion.unwrap();
    let c = taken(p, m);
    let pc = taken_off(p, m);
    let sc = p.stage_captured(m);
    lemma_stage_captured_boards(p, m);
    let sc1 = sc.spec_toggle(m.src, Piece::Pawn, side, false);
    let q = sc1.spec_toggle(m.dest, pp, side, true);
    assert(p.spec_make_move(m) == q);
    lemma_toggle_has(sc, m.src, Piece::Pawn, side, false);
    lemma_toggle_has(sc1, m.dest, pp, side, true);
    lemma_toggle_congruent(sc, pc, m.src, Piece::Pawn, side, false);
    lemma_toggle_congruent(sc1, pc.spec_toggle(m.src, Piece::Pawn, side, false), m.dest, pp, side, true);
    if let Some(cp) = c {
        lemma_piece_on_board(p, m.dest, opp);
        lemma_toggle_has(p, m.dest, cp, opp, false);
    }
    lemma_piece_on_none(sc1, m.dest, side);
    assert forall|x: Piece| !#[trigger] p.pieces.board(x, side).has(m.dest) by {
        assert(!sc1.pieces.board(x, side).has(m.dest));
    }
    lemma_piece_on_none(p, m.dest, side);
}

/// The boards after taking back a promotion, square by square.
proof fn lemma_promotion_unmake_has(p: Position, m: Move, q: Position)
    requires
        promotion_facts(p, m),
        is_proper_promotion(p, m),
        after_facts(p, m, q),
        same_boards(q, taken_off(p, m).spec_toggle(m.src, Piece::Pawn, p.state.to_move, false).spec_toggle(
            m.dest, m.promotion.unwrap(), p.state.to_move, true)),
    ensures
        forall|t: Square, x: Piece, sd: Side| #[trigger] q.spec_unmake_move(p.spec_undo_state(m)).pieces.board(x, sd).has(t)
            == p.pieces.board(x, sd).has(t),
        forall|t: Square, sd: Side| #[trigger] q.spec_unmake_move(p.spec_undo_state(m)).sides.of(sd).has(t)
            == p.sides.of(sd).has(t),
        q.spec_unmake_move(p.spec_undo_state(m)).state == p.state,
{
    let side = p.state.to_move;
    let opp = side.opp();
    let pp = m.promotion.unwrap();
    let c = taken(p, m);
    let pc = taken_off(p, m);
    let pc1 = pc.spec_toggle(m.src, Piece::Pawn, side, false);
    lemma_toggle_has(p, m.dest, c.unwrap(), opp, false);
    lemma_toggle_has(pc, m.src, Piece::Pawn, side, false);
    lemma_toggle_has(pc1, m.dest, pp, side, true);
    let undo = p.spec_undo_state(m);
    lemma_unmake_state_back(p, m, q);
    let s = q.stage_unmake_state(undo);
    let s1 = s.spec_toggle(m.dest, pp, side, false);
    let p2 = s1.spec_toggle(m.src, Piece::Pawn, side, true);
    assert(q.stage_unmake_pieces(undo) == p2);
    lemma_toggle_has(s, m.dest, pp, side, false);
    lemma_toggle_has(s1, m.src, Piece::Pawn, side, true);
    let f = match undo.en_passant_target {
        Some(t) => p2.spec_flip(crate::position::zobrist_hash::en_passant_term(Some(t))),
        None => p2,
    };
    lemma_toggle_has(f, m.dest, c.unwrap(), opp, true);
    let u = q.spec_unmake_move(undo);
    assert(u == match c {
        Some(cp) => f.spec_toggle(m.dest, cp, opp, true),
        None => f,
    });
}

/// A promotion taken back gives back the boards and the state, and the checks of taking
/// it back pass.
proof fn lemma_promotion_unmake(p: Position, m: Move, q: Position)
    requires
        promotion_facts(p, m),
        is_proper_promotion(p, m),
        after_facts(p, m, q),
        same_boards(q, taken_off(p, m).spec_toggle(m.src, Piece::Pawn, p.state.to_move, false).spec_toggle(
            m.dest, m.promotion.unwrap(), p.state.to_move, true)),
    ensures
        q.unmake_move_ok(p.spec_undo_state(m)),
        same_boards(q.spec_unmake_move(p.spec_undo_state(m)), p),
        q.spec_unmake_move(p.spec_undo_state(m)).state == p.state,
{
    let side = p.state.to_move;
    let opp = side.opp();
    let pp = m.promotion.unwrap();
    let c = taken(p, m);
    let pc = taken_off(p, m);
    let pc1 = pc.spec_toggle(m.src, Piece::Pawn, side, false);
    let u = q.spec_unmake_move(p.spec_undo_state(m));
    lemma_promotion_unmake_has(p, m, q);
    lemma_boards_ext(u, p);
    lemma_toggle_has(p, m.dest, c.unwrap(), opp, false);
    lemma_toggle_has(pc, m.src, Piece::Pawn, side, false);
    lemma_toggle_has(pc1, m.dest, pp, side, true);
    let undo = p.spec_undo_state(m);
    lemma_unmake_state_back(p, m, q);
    let s = q.stage_unmake_state(undo);
    let s1 = s.spec_toggle(m.dest, pp, side, false);
    let p2 = s1.spec_toggle(m.src, Piece::Pawn, side, true);
    assert(q.stage_unmake_pieces(undo) == p2);
    lemma_toggle_has(s, m.dest, pp, side, false);
    lemma_toggle_has(s1, m.src, Piece::Pawn, side, true);
    lemma_piece_on_some(s, m.dest, side, pp);
    assert forall|x: Piece| !#[trigger] s.pieces.board(x, side).has(m.src) by {
        if x != Piece::Pawn {
            assert(!p.pieces.board(x, side).has(m.src));
        }
    }
    lemma_piece_on_none(s, m.src, side);
    assert forall|x: Piece| !#[trigger] s1.pieces.board(x, side).has(m.src) by {
        assert(!s.pieces.board(x, side).has(m.src));
    }
    lemma_piece_on_none(s1, m.src, side);
    if let Some(cp) = c {
        assert forall|x: Piece| !#[trigger] p2.pieces.board(x, opp).has(m.dest) by {
            if x != cp {
                assert(!p.pieces.board(x, opp).has(m.dest));
            }
        }
        lemma_piece_on_none(p2, m.dest, opp);
    }
}

/// The move is a castling whose rook stands on its corner.
pub open spec fn is_castling(p: Position, m: Move) -> bool {
    &&& mover(p, m) == Piece::King
    &&& m.src.abs_diff_spec(m.dest) == 2
    &&& m.promotion is None
    &&& p.pieces.board(Piece::Rook, p.state.to_move).has(castle_rook(m.dest).0)
}

/// Where the king, the rook and a taken piece stand before a castling.
pub open spec fn castling_facts(p: Position, m: Move) -> bool {
    let side = p.state.to_move;
    let r0 = castle_rook(m.dest).0;
    let r1 = castle_rook(m.dest).1;
    &&& p.pieces.board(Piece::King, side).has(m.src)
    &&& p.pieces.board(Piece::Rook, side).has(r0)
    &&& p.sides.of(side).has(m.src)
    &&& p.sides.of(side).has(r0)
    &&& !p.sides.of(side).has(m.dest)
    &&& !p.sides.of(side).has(r1)
    &&& forall|x: Piece| x != Piece::King ==> !#[trigger] p.pieces.board(x, side).has(m.src)
    &&& forall|x: Piece| x != Piece::Rook ==> !#[trigger] p.pieces.board(x, side).has(r0)
    &&& forall|x: Piece| !#[trigger] p.pieces.board(x, side).has(m.dest)
    &&& forall|x: Piece| !#[trigger] p.pieces.board(x, side).has(r1)
    &&& m.src != m.dest && m.src != r0 && m.src != r1 && m.dest != r0 && m.dest != r1 && r0 != r1
    &&& (m.dest == Square::C1 || m.dest == Square::G1 || m.dest == Square::C8 || m.dest == Square::G8)
    &&& taken(p, m) matches Some(cp) ==> {
        &&& p.pieces.board(cp, side.opp()).has(m.dest)
        &&& p.sides.of(side.opp()).has(m.dest)
        &&& forall|x: Piece| x != cp ==> !#[trigger] p.pieces.board(x, side.opp()).has(m.dest)
    }
}

/// The boards after a castling: the taken piece off, the rook moved, the king moved.
pub open spec fn castled(p: Position, m: Move) -> Position {
    let side = p.state.to_move;
    taken_off(p, m).spec_move_piece(castle_rook(m.dest).0, castle_rook(m.dest).1, Piece::Rook, side).spec_move_piece(
        m.src, m.dest, Piece::King, side)
}

/// The boards of a position around a castling that can be made, and the boards after it.
proof fn lemma_castling_make(p: Position, m: Move)
    requires
        p.wf(),
        p.make_move_ok(m),
        is_castling(p, m),
    ensures
        castling_facts(p, m),
        after_facts(p, m, p.spec_make_move(m)),
        same_boards(p.spec_make_move(m), castled(p, m)),
{
    let side = p.state.to_move;
    let opp = side.opp();
    let r0 = castle_rook(m.dest).0;
    let r1 = castle_rook(m.dest).1;
    let c = taken(p, m);
    let pc = taken_off(p, m);
    let sc = p.stage_captured(m);
    lemma_stage_captured_boards(p, m);
    let k = sc.spec_king_moved_rights(side);
    lemma_rights_keep_boards(sc, m, side);
    let k1 = k.spec_toggle(r0, Piece::Rook, side, false);
    let sb = k1.spec_toggle(r1, Piece::Rook, side, true);
    assert(p.stage_before_move(m) == sb);
    let sb1 = sb.spec_toggle(m.src, Piece::King, side, false);
    let q = sb1.spec_toggle(m.dest, Piece::King, side, true);
    assert(p.spec_make_move(m) == q);
    lemma_toggle_has(k, r0, Piece::Rook, side, false);
    lemma_toggle_has(k1, r1, Piece::Rook, side, true);
    lemma_toggle_has(sb, m.src, Piece::King, side, false);
    lemma_toggle_has(sb1, m.dest, Piece::King, side, true);
    let pc1 = pc.spec_toggle(r0, Piece::Rook, side, false);
    let pc2 = pc1.spec_toggle(r1, Piece::Rook, side, true);
    let pc3 = pc2.spec_toggle(m.src, Piece::King, side, false);
    lemma_toggle_congruent(k, pc, r0, Piece::Rook, side, false);
    lemma_toggle_congruent(k1, pc1, r1, Piece::Rook, side, true);
    lemma_toggle_congruent(sb, pc2, m.src, Piece::King, side, false);
    lemma_toggle_congruent(sb1, pc3, m.dest, Piece::King, side, true);
    if let Some(cp) = c {
        lemma_piece_on_board(p, m.dest, opp);
    }
    lemma_toggle_has(p, m.dest, c.unwrap(), opp, false);
    lemma_toggle_has(pc, r0, Piece::Rook, side, false);
    lemma_toggle_has(pc1, r1, Piece::Rook, side, true);
    lemma_piece_on_none(sc, r1, side);
    lemma_piece_on_none(sb, m.dest, side);
    assert(m.src != m.dest) by {
        assert(m.src.idx() != m.dest.idx());
    }
    assert forall|x: Piece| !#[trigger] p.pieces.board(x, side).has(r1) by {
        assert(!sc.pieces.board(x, side).has(r1));
    }
    assert forall|x: Piece| !#[trigger] p.pieces.board(x, side).has(m.dest) by {
        assert(!sb.pieces.board(x, side).has(m.dest));
    }
    lemma_piece_on_none(p, r1, side);
    lemma_piece_on_none(p, m.dest, side);
    assert(m.src != r0);
}

/// The boards after taking back a castling, square by square.
proof fn lemma_castling_unmake_has(p: Position, m: Move, q: Position)
    requires
        castling_facts(p, m),
        is_castling(p, m),
        after_facts(p, m, q),
        same_boards(q, castled(p, m)),
    ensures
        forall|t: Square, x: Piece, sd: Side| #[trigger] q.spec_unmake_move(p.spec_undo_state(m)).pieces.board(x, sd).has(t)
            == p.pieces.board(x, sd).has(t),
        forall|t: Square, sd: Side| #[trigger] q.spec_unmake_move(p.spec_undo_state(m)).sides.of(sd).has(t)
            == p.sides.of(sd).has(t),
        q.spec_unmake_move(p.spec_undo_state(m)).state == p.state,
{
    let side = p.state.to_move;
    let opp = side.opp();
    let r0 = castle_rook(m.dest).0;
    let r1 = castle_rook(m.dest).1;
    let c = taken(p, m);
    let pc = taken_off(p, m);
    let pc1 = pc.spec_toggle(r0, Piece::Rook, side, false);
    let pc2 = pc1.spec_toggle(r1, Piece::Rook, side, true);
    let pc3 = pc2.spec_toggle(m.src, Piece::King, side, false);
    lemma_toggle_has(p, m.dest, c.unwrap(), opp, false);
    lemma_toggle_has(pc, r0, Piece::Rook, side, false);
    lemma_toggle_has(pc1, r1, Piece::Rook, side, true);
    lemma_toggle_has(pc2, m.src, Piece::King, side, false);
    lemma_toggle_has(pc3, m.dest, Piece::King, side, true);
    let undo = p.spec_undo_state(m);
    lemma_unmake_state_back(p, m, q);
    let s = q.stage_unmake_state(undo);
    let s1 = s.spec_toggle(m.dest, Piece::King, side, false);
    let p1 = s1.spec_toggle(m.src, Piece::King, side, true);
    let p2 = p1.spec_toggle(r1, Piece::Rook, side, false);
    let p3 = p2.spec_toggle(r0, Piece::Rook, side, true);
    assert(q.stage_unmake_pieces(undo) == p3);
    lemma_toggle_has(s, m.dest, Piece::King, side, false);
    lemma_toggle_has(s1, m.src, Piece::King, side, true);
    lemma_toggle_has(p1, r1, Piece::Rook, side, false);
    lemma_toggle_has(p2, r0, Piece::Rook, side, true);
    let f = match undo.en_passant_target {
        Some(t) => p3.spec_flip(crate::position::zobrist_hash::en_passant_term(Some(t))),
        None => p3,
    };
    lemma_toggle_has(f, m.dest, c.unwrap(), opp, true);
    let u = q.spec_unmake_move(undo);
    assert(u == match c {
        Some(cp) => f.spec_toggle(m.dest, cp, opp, true),
        None => f,
    });
}

/// A castling taken back gives back the boards and the state, and the checks of taking it
/// back pass.
proof fn lemma_castling_unmake(p: Position, m: Move, q: Position)
    requires
        castling_facts(p, m),
        is_castling(p, m),
        after_facts(p, m, q),
        same_boards(q, castled(p, m)),
    ensures
        q.unmake_move_ok(p.spec_undo_state(m)),
        same_boards(q.spec_unmake_move(p.spec_undo_state(m)), p),
        q.spec_unmake_move(p.spec_undo_state(m)).state == p.state,
{
    let side = p.state.to_move;
    let opp = side.opp();
    let r0 = castle_rook(m.dest).0;
    let r1 = castle_rook(m.dest).1;
    let c = taken(p, m);
    let pc = taken_off(p, m);
    let pc1 = pc.spec_toggle(r0, Piece::Rook, side, false);
    let pc2 = pc1.spec_toggle(r1, Piece::Rook, side, true);
    let pc3 = pc2.spec_toggle(m.src, Piece::King, side, false);
    let u = q.spec_unmake_move(p.spec_undo_state(m));
    lemma_castling_unmake_has(p, m, q);
    lemma_boards_ext(u, p);
    lemma_toggle_has(p, m.dest, c.unwrap(), opp, false);
    lemma_toggle_has(pc, r0, Piece::Rook, side, false);
    lemma_toggle_has(pc1, r1, Piece::Rook, side, true);
    lemma_toggle_has(pc2, m.src, Piece::King, side, false);
    lemma_toggle_has(pc3, m.dest, Piece::King, side, true);
    let undo = p.spec_undo_state(m);
    lemma_unmake_state_back(p, m, q);
    let s = q.stage_unmake_state(undo);
    let s1 = s.spec_toggle(m.dest, Piece::King, side, false);
    let p1 = s1.spec_toggle(m.src, Piece::King, side, true);
    let p2 = p1.spec_toggle(r1, Piece::Rook, side, false);
    let p3 = p2.spec_toggle(r0, Piece::Rook, side, true);
    assert(q.stage_unmake_pieces(undo) == p3);
    lemma_toggle_has(s, m.dest, Piece::King, side, false);
    lemma_toggle_has(s1, m.src, Piece::King, side, true);
    lemma_toggle_has(p1, r1, Piece::Rook, side, false);
    lemma_toggle_has(p2, r0, Piece::Rook, side, true);
    lemma_piece_on_some(s, m.dest, side, Piece::King);
    assert forall|x: Piece| !#[trigger] s.pieces.board(x, side).has(m.src) by {
        if x != Piece::King {
            assert(!p.pieces.board(x, side).has(m.src));
        }
    }
    lemma_piece_on_none(s, m.src, side);
    lemma_piece_on_some(p1, r1, side, Piece::Rook);
    assert forall|x: Piece| !#[trigger] p1.pieces.board(x, side).has(r0) by {
        if x != Piece::Rook {
            assert(!p.pieces.board(x, side).has(r0));
        }
    }
    lemma_piece_on_none(p1, r0, side);
    if let Some(cp) = c {
        assert forall|x: Piece| !#[trigger] p3.pieces.board(x, opp).has(m.dest) by {
            if x != cp {
                assert(!p.pieces.board(x, opp).has(m.dest));
            }
        }
        lemma_piece_on_none(p3, m.dest, opp);
    }
}

/// The square of the pawn an en passant capture takes.
pub open spec fn en_passant_victim(p: Position, m: Move) -> Square {
    step_sq(m.dest, backward(p.state.to_move))
}

/// The move takes a pawn en passant, names no promotion, is made with the half move clock
/// at zero, and the square behind the target holds a pawn of the side not to move.
pub open spec fn is_proper_en_passant(p: Position, m: Move) -> bool {
    &&& p.is_en_passant(m)
    &&& m.promotion is None
    &&& p.state.half_move_clock == 0
    &&& p.pieces.board(Piece::Pawn, p.state.to_move.opp()).has(en_passant_victim(p, m))
}

/// Where the two pawns of an en passant capture stand before it.
pub open spec fn en_passant_facts(p: Position, m: Move) -> bool {
    let side = p.state.to_move;
    let cap = en_passant_victim(p, m);
    &&& p.pieces.board(Piece::Pawn, side).has(m.src)
    &&& p.sides.of(side).has(m.src)
    &&& !p.sides.of(side).has(m.dest)
    &&& forall|x: Piece| x != Piece::Pawn ==> !#[trigger] p.pieces.board(x, side).has(m.src)
    &&& forall|x: Piece| !#[trigger] p.pieces.board(x, side).has(m.dest)
    &&& p.pieces.board(Piece::Pawn, side.opp()).has(cap)
    &&& p.sides.of(side.opp()).has(cap)
    &&& forall|x: Piece| x != Piece::Pawn ==> !#[trigger] p.pieces.board(x, side.opp()).has(cap)
    &&& m.src != m.dest
    &&& shift_dest(m.dest.idx(), backward(side)) >= 0
}

/// The boards after an en passant capture: the pawn moved, the pawn behind the target
/// taken off.
pub open spec fn passed(p: Position, m: Move) -> Position {
    let side = p.state.to_move;
    p.spec_move_piece(m.src, m.dest, Piece::Pawn, side).spec_toggle(en_passant_victim(p, m), Piece::Pawn, side.opp(), false)
}

/// The boards of a position around an en passant capture that can be made, and the
/// boards after it.
proof fn lemma_en_passant_make(p: Position, m: Move)
    requires
        p.wf(),
        p.make_move_ok(m),
        is_proper_en_passant(p, m),
    ensures
        en_passant_facts(p, m),
        after_facts(p, m, p.spec_make_move(m)),
        same_boards(p.spec_make_move(m), passed(p, m)),
{
    let side = p.state.to_move;
    let opp = side.opp();
    let cap = en_passant_victim(p, m);
    let c0 = p.stage_common();
    let c1 = c0.spec_toggle(m.src, Piece::Pawn, side, false);
    let c2 = c1.spec_toggle(m.dest, Piece::Pawn, side, true);
    let c3 = c2.spec_toggle(cap, Piece::Pawn, opp, false);
    assert(p.spec_make_move(m) == c3.spec_with_state(State { en_passant_target: None, to_move: opp, ..c3.state }));
    assert(same_boards(c0, p));
    lemma_toggle_congruent(c0, p, m.src, Piece::Pawn, side, false);
    lemma_toggle_congruent(c1, p.spec_toggle(m.src, Piece::Pawn, side, false), m.dest, Piece::Pawn, side, true);
    lemma_toggle_congruent(c2, p.spec_move_piece(m.src, m.dest, Piece::Pawn, side), cap, Piece::Pawn, opp, false);
    lemma_toggle_has(c0, m.src, Piece::Pawn, side, false);
    lemma_toggle_has(c1, m.dest, Piece::Pawn, side, true);
    lemma_toggle_has(c2, cap, Piece::Pawn, opp, false);
    assert(p.piece_on(m.dest, side) is None);
    lemma_piece_on_none(p, m.dest, side);
}

/// Restoring the recorded state after an en passant capture made with the half move clock
/// at zero gives back the state it was made from, and leaves the boards alone.
proof fn lemma_en_passant_state_back(p: Position, m: Move, q: Position)
    requires
        after_facts(p, m, q),
        p.is_en_passant(m),
        p.state.half_move_clock == 0,
    ensures
        q.stage_unmake_state(p.spec_undo_state(m)).state == p.state,
        same_boards(q.stage_unmake_state(p.spec_undo_state(m)), q),
{
}

/// An en passant capture taken back gives back the boards and the state, and the checks
/// of taking it back pass.
proof fn lemma_en_passant_unmake(p: Position, m: Move, q: Position)
    requires
        en_passant_facts(p, m),
        is_proper_en_passant(p, m),
        after_facts(p, m, q),
        same_boards(q, passed(p, m)),
    ensures
        q.unmake_move_ok(p.spec_undo_state(m)),
        same_boards(q.spec_unmake_move(p.spec_undo_state(m)), p),
        q.spec_unmake_move(p.spec_undo_state(m)).state == p.state,
{
    let side = p.state.to_move;
    let opp = side.opp();
    let cap = en_passant_victim(p, m);
    let pm1 = p.spec_toggle(m.src, Piece::Pawn, side, false);
    let pm = pm1.spec_toggle(m.dest, Piece::Pawn, side, true);
    lemma_toggle_has(p, m.src, Piece::Pawn, side, false);
    lemma_toggle_has(pm1, m.dest, Piece::Pawn, side, true);
    lemma_toggle_has(pm, cap, Piece::Pawn, opp, false);
    let undo = p.spec_undo_state(m);
    lemma_en_passant_state_back(p, m, q);
    let s = q.stage_unmake_state(undo);
    let s1 = s.spec_toggle(m.dest, Piece::Pawn, side, false);
    let p1 = s1.spec_toggle(m.src, Piece::Pawn, side, true);
    assert(q.stage_unmake_pieces(undo) == p1);
    lemma_toggle_has(s, m.dest, Piece::Pawn, side, false);
    lemma_toggle_has(s1, m.src, Piece::Pawn, side, true);
    let f = p1.spec_flip(crate::position::zobrist_hash::en_passant_term(Some(m.dest)));
    let u = q.spec_unmake_move(undo);
    assert(u == f.spec_toggle(cap, Piece::Pawn, opp, true));
    lemma_toggle_has(f, cap, Piece::Pawn, opp, true);
    assert forall|t: Square, x: Piece, sd: Side| #[trigger] u.pieces.board(x, sd).has(t) == p.pieces.board(x, sd).has(t) by {}
    assert forall|t: Square, sd: Side| #[trigger] u.sides.of(sd).has(t) == p.sides.of(sd).has(t) by {}
    lemma_boards_ext(u, p);
    lemma_piece_on_some(s, m.dest, side, Piece::Pawn);
    assert forall|x: Piece| !#[trigger] s.pieces.board(x, side).has(m.src) by {
        if x != Piece::Pawn {
            assert(!p.pieces.board(x, side).has(m.src));
        }
    }
    lemma_piece_on_none(s, m.src, side);
    assert forall|x: Piece| !#[trigger] p1.pieces.board(x, opp).has(cap) by {
        if x != Piece::Pawn {
            assert(!p.pieces.board(x, opp).has(cap));
        }
    }
    lemma_piece_on_none(p1, cap, opp);
}

/// Making a move and taking it back with what `make_move` returned gives back the boards
/// and the state the move was made from, and taking it back trips none of the checks of
/// `unmake_move`. This holds of every move that can be made from a well-formed position,
/// goes somewhere other than its source, names a promotion (other than a pawn) exactly
/// when it is a promotion, castles only with a rook on the corner, and, taking en
/// passant, is made with the half move clock at zero and takes a pawn.
pub proof fn lemma_unmake_restores(p: Position, m: Move)
    requires
        p.wf(),
        p.make_move_ok(m),
        m.src != m.dest,
        (m.promotion is Some) == (p.is_promotion_move(m) && !p.is_en_passant(m)),
        m.promotion != Some(Piece::Pawn),
        mover(p, m) == Piece::King && m.src.abs_diff_spec(m.dest) == 2 ==> p.pieces.board(Piece::Rook, p.state.to_move).has(
            castle_rook(m.dest).0,
        ),
        p.is_en_passant(m) ==> p.state.half_move_clock == 0 && p.pieces.board(Piece::Pawn, p.state.to_move.opp()).has(
            en_passant_victim(p, m),
        ),
    ensures
        p.spec_make_move(m).unmake_move_ok(p.spec_undo_state(m)),
        p.spec_make_move(m).spec_unmake_move(p.spec_undo_state(m)).sides == p.sides,
        p.spec_make_move(m).spec_unmake_move(p.spec_undo_state(m)).pieces == p.pieces,
        p.spec_make_move(m).spec_unmake_move(p.spec_undo_state(m)).state == p.state,
{
    let q = p.spec_make_move(m);
    if p.is_en_passant(m) {
        lemma_en_passant_make(p, m);
        lemma_en_passant_unmake(p, m, q);
    } else if p.is_promotion_move(m) {
        lemma_promotion_make(p, m);
        lemma_promotion_unmake(p, m, q);
    } else if mover(p, m) == Piece::King && m.src.abs_diff_spec(m.dest) == 2 {
        lemma_castling_make(p, m);
        lemma_castling_unmake(p, m, q);
    } else {
        lemma_ordinary(p, m);
    }
}

/// How far the stored hash is from the hash of the pieces and state: zero exactly when
/// the hash is right.
pub open spec fn hash_off(p: Position) -> u64 {
    p.zobrist_hash.0 ^ full_hash(p.pieces, p.state)
}

/// The hash is right exactly when it is off by nothing.
proof fn lemma_off_zero(p: Position)
    ensures
        p.hash_ok() == (hash_off(p) == 0),
{
    let a = p.zobrist_hash.0;
    let b = full_hash(p.pieces, p.state);
    lemma_xor_toolkit(a, b, 0);
}

/// Toggling a bit that really changes moves the stored hash and the computed hash alike.
proof fn lemma_off_toggle(p: Position, sq: Square, piece: Piece, side: Side, on: bool)
    requires
        p.pieces.board(piece, side).has(sq) != on,
    ensures
        hash_off(p.spec_toggle(sq, piece, side, on)) == hash_off(p),
{
    let q = p.spec_toggle(sq, piece, side, on);
    lemma_toggle_boards(p, sq, piece, side, on);
    assert forall|t: Square| q.pieces.board(piece, side).has(t) == (p.pieces.board(piece, side).has(t) != (t == sq)) by {
        lemma_with_bit(p.pieces.board(piece, side), sq, on, t);
    }
    lemma_full_hash_toggle(p.pieces, q.pieces, piece, side, sq, p.state);
    let z = p.zobrist_hash.0;
    let f = full_hash(p.pieces, p.state);
    let k = piece_key(piece, side, sq);
    lemma_xor_toolkit(z, k, f);
}

/// Folding a key into the stored hash moves it off by the key.
proof fn lemma_off_flip(p: Position, k: u64)
    ensures
        hash_off(p.spec_flip(k)) == hash_off(p) ^ k,
{
    let z = p.zobrist_hash.0;
    let f = full_hash(p.pieces, p.state);
    lemma_xor_toolkit(z, k, f);
}

/// Replacing the state moves the computed hash by the two states' hashes.
proof fn lemma_off_state(p: Position, s2: State)
    ensures
        hash_off(p.spec_with_state(s2)) == hash_off(p) ^ (state_hash(p.state) ^ state_hash(s2)),
{
    lemma_full_hash_state(p.pieces, p.state, s2);
    let z = p.zobrist_hash.0;
    let f = full_hash(p.pieces, p.state);
    let d = state_hash(p.state) ^ state_hash(s2);
    lemma_xor_toolkit(z, f, d);
}

/// Six keys folded together.
pub open spec fn xor6(a: u64, b: u64, c: u64, d: u64, e: u64, f: u64) -> u64 {
    ((((a ^ b) ^ c) ^ d) ^ e) ^ f
}

/// Six keys folded together change by the change of each.
proof fn lemma_xor6_diff(a: u64, b: u64, c: u64, d: u64, e: u64, f: u64, a2: u64, b2: u64, c2: u64, d2: u64, e2: u64, f2: u64)
    ensures
        xor6(a, b, c, d, e, f) ^ xor6(a2, b2, c2, d2, e2, f2) == xor6(a ^ a2, b ^ b2, c ^ c2, d ^ d2, e ^ e2, f ^ f2),
{
    assert(xor6(a, b, c, d, e, f) ^ xor6(a2, b2, c2, d2, e2, f2) == xor6(a ^ a2, b ^ b2, c ^ c2, d ^ d2, e ^ e2, f ^ f2))
        by (bit_vector);
}

/// The state hash, key by key.
pub open spec fn state_keys(s: State) -> (u64, u64, u64, u64, u64, u64) {
    let c = s.castling_rights;
    (
        side_term(s),
        castle_term(c.white_king_side, 0),
        castle_term(c.white_queen_side, 1),
        castle_term(c.black_king_side, 2),
        castle_term(c.black_queen_side, 3),
        en_passant_term(s.en_passant_target),
    )
}

/// The change of the state hash between two states, key by key.
proof fn lemma_state_hash_diff(s: State, s2: State)
    ensures
        ({
            let k = state_keys(s);
            let k2 = state_keys(s2);
            state_hash(s) ^ state_hash(s2) == xor6(k.0 ^ k2.0, k.1 ^ k2.1, k.2 ^ k2.2, k.3 ^ k2.3, k.4 ^ k2.4, k.5 ^ k2.5)
        }),
{
    let k = state_keys(s);
    let k2 = state_keys(s2);
    assert(state_hash(s) == xor6(k.0, k.1, k.2, k.3, k.4, k.5));
    assert(state_hash(s2) == xor6(k2.0, k2.1, k2.2, k2.3, k2.4, k2.5));
    lemma_xor6_diff(k.0, k.1, k.2, k.3, k.4, k.5, k2.0, k2.1, k2.2, k2.3, k2.4, k2.5);
}

/// Folding nothing in changes nothing, a key folded in twice cancels, and the order of
/// the keys does not matter.
proof fn lemma_xor_basics(a: u64, b: u64)
    ensures
        a ^ 0 == a,
        0 ^ a == a,
        a ^ a == 0,
        (a ^ b) ^ b == a,
        a ^ b == b ^ a,
{
    lemma_xor_toolkit(a, b, 0);
}

/// Exclusive or is associative and commutative, cancels a key folded in twice, and is zero
/// exactly on equal words.
proof fn lemma_xor_toolkit(a: u64, b: u64, c: u64)
    ensures
        a ^ 0 == a,
        0 ^ a == a,
        a ^ a == 0,
        (a ^ b) ^ b == a,
        a ^ b == b ^ a,
        (a ^ b == 0) == (a == b),
        (a ^ b) ^ (c ^ b) == a ^ c,
        (a ^ b) ^ c == (a ^ c) ^ b,
        a ^ (b ^ c) == (a ^ b) ^ c,
        a ^ c == (a ^ b) ^ (b ^ c),
{
    assert(a ^ 0 == a && 0 ^ a == a && a ^ a == 0 && (a ^ b) ^ b == a && a ^ b == b ^ a && (a ^ b == 0) == (a == b) && (a
        ^ b) ^ (c ^ b) == a ^ c && (a ^ b) ^ c == (a ^ c) ^ b && a ^ (b ^ c) == (a ^ b) ^ c && a ^ c == (a ^ b) ^ (b ^ c))
        by (bit_vector);
}

/// Six keys with all but one or two of them zero.
proof fn lemma_xor6_units(k: u64, b: u64, e: u64)
    ensures
        xor6(0, k, 0, 0, 0, 0) == k,
        xor6(0, 0, k, 0, 0, 0) == k,
        xor6(0, 0, 0, k, 0, 0) == k,
        xor6(0, 0, 0, 0, k, 0) == k,
        xor6(b, 0, 0, 0, 0, 0) == b,
        xor6(0, 0, 0, 0, 0, e) == e,
        xor6(b, 0, 0, 0, 0, e) == b ^ e,
{
    assert(xor6(0, k, 0, 0, 0, 0) == k && xor6(0, 0, k, 0, 0, 0) == k && xor6(0, 0, 0, k, 0, 0) == k && xor6(0, 0, 0, 0, k, 0)
        == k && xor6(b, 0, 0, 0, 0, 0) == b && xor6(0, 0, 0, 0, 0, e) == e && xor6(b, 0, 0, 0, 0, e) == b ^ e) by (bit_vector);
}

/// Losing a castling right takes its key out of the state hash and folds it into the
/// stored hash: the hash stays as far off as it was.
proof fn lemma_off_lose_right(p: Position, k: int, cond: bool)
    requires
        0 <= k < 4,
    ensures
        hash_off(p.spec_lose_right(k, cond)) == hash_off(p),
        same_boards(p.spec_lose_right(k, cond), p),
        p.spec_lose_right(k, cond).state.to_move == p.state.to_move,
        p.spec_lose_right(k, cond).state.en_passant_target == p.state.en_passant_target,
{
    if cond && right_held(p.state.castling_rights, k) {
        let s2 = State { castling_rights: without_right(p.state.castling_rights, k), ..p.state };
        let q = p.spec_with_state(s2);
        lemma_off_state(p, s2);
        lemma_state_hash_diff(p.state, s2);
        let key = ZOBRIST_CASTLING_KEYS[k];
        let k1 = state_keys(p.state);
        lemma_xor_basics(k1.0, 0);
        lemma_xor_basics(k1.1, 0);
        lemma_xor_basics(k1.2, 0);
        lemma_xor_basics(k1.3, 0);
        lemma_xor_basics(k1.4, 0);
        lemma_xor_basics(k1.5, 0);
        lemma_xor_basics(key, 0);
        lemma_xor6_units(key, 0, 0);
        let k2 = state_keys(s2);
        assert(k1.0 ^ k2.0 == 0 && k1.5 ^ k2.5 == 0);
        if k == 0 {
            assert(k1.1 ^ k2.1 == key && k1.2 ^ k2.2 == 0 && k1.3 ^ k2.3 == 0 && k1.4 ^ k2.4 == 0);
        } else if k == 1 {
            assert(k1.1 ^ k2.1 == 0 && k1.2 ^ k2.2 == key && k1.3 ^ k2.3 == 0 && k1.4 ^ k2.4 == 0);
        } else if k == 2 {
            assert(k1.1 ^ k2.1 == 0 && k1.2 ^ k2.2 == 0 && k1.3 ^ k2.3 == key && k1.4 ^ k2.4 == 0);
        } else {
            assert(k1.1 ^ k2.1 == 0 && k1.2 ^ k2.2 == 0 && k1.3 ^ k2.3 == 0 && k1.4 ^ k2.4 == key);
        }
        assert(state_hash(p.state) ^ state_hash(s2) == key);
        lemma_off_flip(q, key);
        lemma_xor_basics(hash_off(p), key);
    }
}

/// Handling the castling rights leaves the hash as far off as it was, the boards, the
/// side to move and the en passant target alone.
proof fn lemma_off_rights(r: Position, m: Move, side: Side)
    ensures
        hash_off(r.spec_rook_captured_rights(m.dest)) == hash_off(r),
        hash_off(r.spec_king_moved_rights(side)) == hash_off(r),
        hash_off(r.spec_rook_moved_rights(m.src)) == hash_off(r),
        r.spec_rook_captured_rights(m.dest).state.en_passant_target == r.state.en_passant_target,
        r.spec_king_moved_rights(side).state.en_passant_target == r.state.en_passant_target,
        r.spec_rook_moved_rights(m.src).state.en_passant_target == r.state.en_passant_target,
{
    lemma_off_lose_right(r, 0, true);
    lemma_off_lose_right(r, 1, true);
    lemma_off_lose_right(r, 2, true);
    lemma_off_lose_right(r, 3, true);
    lemma_off_lose_right(r.spec_lose_right(1, true), 0, true);
    lemma_off_lose_right(r.spec_lose_right(3, true), 2, true);
}

/// A change of the side to move alone changes the state hash by the side-to-move key.
proof fn lemma_side_change(s: State, s2: State)
    requires
        s2.to_move == s.to_move.opp(),
        s2.castling_rights == s.castling_rights,
        s2.en_passant_target == s.en_passant_target,
    ensures
        state_hash(s) ^ state_hash(s2) == ZOBRIST_BLACK_TO_MOVE_KEY,
{
    lemma_state_hash_diff(s, s2);
    let k = state_keys(s);
    let b = ZOBRIST_BLACK_TO_MOVE_KEY;
    lemma_xor_basics(k.1, 0);
    lemma_xor_basics(k.2, 0);
    lemma_xor_basics(k.3, 0);
    lemma_xor_basics(k.4, 0);
    lemma_xor_basics(k.5, 0);
    lemma_xor_basics(b, 0);
    assert(side_term(s) ^ side_term(s2) == b);
    lemma_xor6_units(0, b, 0);
}

/// A change of the en passant target alone changes the state hash by the two targets' keys.
proof fn lemma_target_change(s: State, s2: State)
    requires
        s2.to_move == s.to_move,
        s2.castling_rights == s.castling_rights,
    ensures
        state_hash(s) ^ state_hash(s2) == en_passant_term(s.en_passant_target) ^ en_passant_term(s2.en_passant_target),
{
    lemma_state_hash_diff(s, s2);
    let k = state_keys(s);
    let e = en_passant_term(s.en_passant_target) ^ en_passant_term(s2.en_passant_target);
    lemma_xor_basics(k.0, 0);
    lemma_xor_basics(k.1, 0);
    lemma_xor_basics(k.2, 0);
    lemma_xor_basics(k.3, 0);
    lemma_xor_basics(k.4, 0);
    lemma_xor6_units(0, 0, e);
}

/// A change of both the side to move and the en passant target.
proof fn lemma_side_target_change(s: State, s2: State)
    requires
        s2.to_move == s.to_move.opp(),
        s2.castling_rights == s.castling_rights,
    ensures
        state_hash(s) ^ state_hash(s2) == ZOBRIST_BLACK_TO_MOVE_KEY ^ (en_passant_term(s.en_passant_target) ^ en_passant_term(
            s2.en_passant_target)),
{
    lemma_state_hash_diff(s, s2);
    let k = state_keys(s);
    let b = ZOBRIST_BLACK_TO_MOVE_KEY;
    let e = en_passant_term(s.en_passant_target) ^ en_passant_term(s2.en_passant_target);
    lemma_xor_basics(k.1, 0);
    lemma_xor_basics(k.2, 0);
    lemma_xor_basics(k.3, 0);
    lemma_xor_basics(k.4, 0);
    lemma_xor_basics(b, 0);
    assert(side_term(s) ^ side_term(s2) == b);
    lemma_xor6_units(0, b, e);
}

/// The first stage of a move leaves the hash off by the side-to-move key and the old
/// target's key, and the boards and the rest of the state alone.
proof fn lemma_off_common(p: Position)
    ensures
        hash_off(p.stage_common()) == hash_off(p) ^ (ZOBRIST_BLACK_TO_MOVE_KEY ^ en_passant_term(p.state.en_passant_target)),
        same_boards(p.stage_common(), p),
        p.stage_common().state.to_move == p.state.to_move,
        p.stage_common().state.en_passant_target == p.state.en_passant_target,
        p.stage_common().state.castling_rights == p.state.castling_rights,
{
    let counter = if p.state.to_move == Side::Black {
        (p.state.full_move_counter + 1) as u8
    } else {
        p.state.full_move_counter
    };
    let s1 = State { full_move_counter: counter, ..p.state };
    let a = p.spec_with_state(s1);
    lemma_off_state(p, s1);
    assert(state_hash(s1) == state_hash(p.state));
    lemma_xor_basics(state_hash(s1), 0);
    lemma_xor_basics(hash_off(p), 0);
    let b = a.spec_flip(ZOBRIST_BLACK_TO_MOVE_KEY);
    lemma_off_flip(a, ZOBRIST_BLACK_TO_MOVE_KEY);
    let e = en_passant_term(p.state.en_passant_target);
    lemma_off_flip(b, e);
    let o = hash_off(p);
    let k = ZOBRIST_BLACK_TO_MOVE_KEY;
    lemma_xor_toolkit(o, k, e);
}

/// Keys folded in and taken out again.
proof fn lemma_xor_cancel(o: u64, b: u64, e: u64, t: u64)
    ensures
        (o ^ (b ^ e)) ^ b == o ^ e,
        ((o ^ e) ^ (e ^ t)) ^ t == o,
        (o ^ e) ^ (e ^ 0) == o,
        (o ^ (b ^ e)) ^ (b ^ (e ^ 0)) == o,
        ((o ^ e) ^ b) ^ (e ^ 0) == o ^ b,
        (((o ^ e) ^ b) ^ (e ^ t)) ^ t == o ^ b,
        ((o ^ e) ^ (b ^ (e ^ t))) ^ b == o ^ t,
        ((o ^ e) ^ b) ^ e == o ^ b,
        (o ^ b) ^ t == o ^ (b ^ t),
        ((o ^ 0) ^ b) ^ t == o ^ (b ^ t),
{
    assert((o ^ (b ^ e)) ^ b == o ^ e && ((o ^ e) ^ (e ^ t)) ^ t == o && (o ^ e) ^ (e ^ 0) == o && (o ^ (b ^ e)) ^ (b ^ (e
        ^ 0)) == o && ((o ^ e) ^ b) ^ (e ^ 0) == o ^ b && (((o ^ e) ^ b) ^ (e ^ t)) ^ t == o ^ b && ((o ^ e) ^ (b ^ (e ^ t)))
        ^ b == o ^ t && ((o ^ e) ^ b) ^ e == o ^ b && (o ^ b) ^ t == o ^ (b ^ t) && ((o ^ 0) ^ b) ^ t == o ^ (b ^ t))
        by (bit_vector);
}

/// The capture stage of a move that is not en passant leaves the hash as far off as it
/// was, and the mover's boards alone.
proof fn lemma_off_captured(p: Position, m: Move)
    requires
        !p.is_en_passant(m),
    ensures
        hash_off(p.stage_captured(m)) == hash_off(p),
        forall|x: Piece| #[trigger] p.stage_captured(m).pieces.board(x, p.state.to_move) == p.pieces.board(x, p.state.to_move),
{
    let side = p.state.to_move;
    let opp = side.opp();
    let piece = p.piece_on(m.src, side).unwrap();
    let captured = p.piece_on(m.dest, opp);
    let p1 = p.stage_common();
    lemma_off_common(p);
    let clock = if piece == Piece::Pawn || captured is Some { 0u8 } else { (p.state.half_move_clock + 1) as u8 };
    let s2 = State { to_move: opp, half_move_clock: clock, ..p1.state };
    let p2 = p1.spec_with_state(s2);
    lemma_off_state(p1, s2);
    lemma_side_change(p1.state, s2);
    let o = hash_off(p);
    let b = ZOBRIST_BLACK_TO_MOVE_KEY;
    let e = en_passant_term(p.state.en_passant_target);
    lemma_xor_cancel(o, b, e, 0);
    assert(hash_off(p2) == o ^ e);
    let p3 = match captured {
        Some(cp) => {
            let q = p2.spec_toggle(m.dest, cp, opp, false);
            if cp == Piece::Rook {
                q.spec_rook_captured_rights(m.dest)
            } else {
                q
            }
        },
        None => p2,
    };
    if let Some(cp) = captured {
        lemma_piece_on_board(p, m.dest, opp);
        assert(p2.pieces == p.pieces);
        lemma_off_toggle(p2, m.dest, cp, opp, false);
        let q = p2.spec_toggle(m.dest, cp, opp, false);
        lemma_off_rights(q, m, side);
        lemma_toggle_boards(p2, m.dest, cp, opp, false);
        lemma_rights_keep_boards(q, m, side);
    }
    assert(hash_off(p3) == o ^ e);
    assert(p3.state.en_passant_target == p.state.en_passant_target);
    assert(forall|x: Piece| #[trigger] p3.pieces.board(x, side) == p.pieces.board(x, side));
    if piece == Piece::Pawn && m.src.abs_diff_spec(m.dest) == 16 {
        let t = step_sq(m.src, forward(side));
        let s4 = State { en_passant_target: Some(t), ..p3.state };
        lemma_off_state(p3, s4);
        lemma_target_change(p3.state, s4);
        let et = en_passant_term(Some(t));
        lemma_off_flip(p3.spec_with_state(s4), et);
        lemma_xor_cancel(o, b, e, et);
    } else {
        let s4 = State { en_passant_target: None, ..p3.state };
        lemma_off_state(p3, s4);
        lemma_target_change(p3.state, s4);
    }
}

/// Moving a piece whose square really changes on both ends keeps the hash as far off as
/// it was.
proof fn lemma_off_move_piece(b: Position, src: Square, dest: Square, piece: Piece, side: Side)
    requires
        b.pieces.board(piece, side).has(src),
        !b.pieces.board(piece, side).has(dest),
    ensures
        hash_off(b.spec_move_piece(src, dest, piece, side)) == hash_off(b),
{
    lemma_off_toggle(b, src, piece, side, false);
    let b1 = b.spec_toggle(src, piece, side, false);
    lemma_toggle_has(b, src, piece, side, false);
    lemma_off_toggle(b1, dest, piece, side, true);
}

/// The hash after an en passant capture.
proof fn lemma_off_en_passant(p: Position, m: Move)
    requires
        p.make_move_ok(m),
        p.is_en_passant(m),
        p.pieces.board(Piece::Pawn, p.state.to_move.opp()).has(en_passant_victim(p, m)),
    ensures
        hash_off(p.spec_make_move(m)) == hash_off(p),
{
    let side = p.state.to_move;
    let opp = side.opp();
    let cap = en_passant_victim(p, m);
    let c0 = p.stage_common();
    lemma_off_common(p);
    lemma_piece_on_board(p, m.src, side);
    lemma_piece_on_none(p, m.dest, side);
    assert(c0.pieces == p.pieces);
    lemma_off_move_piece(c0, m.src, m.dest, Piece::Pawn, side);
    let c2 = c0.spec_move_piece(m.src, m.dest, Piece::Pawn, side);
    lemma_toggle_has(c0, m.src, Piece::Pawn, side, false);
    lemma_toggle_has(c0.spec_toggle(m.src, Piece::Pawn, side, false), m.dest, Piece::Pawn, side, true);
    assert(c2.pieces.board(Piece::Pawn, opp).has(cap));
    lemma_off_toggle(c2, cap, Piece::Pawn, opp, false);
    let c3 = c2.spec_toggle(cap, Piece::Pawn, opp, false);
    lemma_toggle_has(c2, cap, Piece::Pawn, opp, false);
    let s4 = State { en_passant_target: None, to_move: opp, ..c3.state };
    assert(p.spec_make_move(m) == c3.spec_with_state(s4));
    lemma_off_state(c3, s4);
    lemma_side_target_change(c3.state, s4);
    lemma_xor_cancel(hash_off(p), ZOBRIST_BLACK_TO_MOVE_KEY, en_passant_term(p.state.en_passant_target), 0);
}

/// The hash after a promotion that is not en passant.
proof fn lemma_off_promotion(p: Position, m: Move)
    requires
        p.make_move_ok(m),
        !p.is_en_passant(m),
        p.is_promotion_move(m),
    ensures
        hash_off(p.spec_make_move(m)) == hash_off(p),
{
    let side = p.state.to_move;
    let sc = p.stage_captured(m);
    lemma_off_captured(p, m);
    lemma_piece_on_board(p, m.src, side);
    assert(sc.pieces.board(Piece::Pawn, side) == p.pieces.board(Piece::Pawn, side));
    lemma_off_toggle(sc, m.src, Piece::Pawn, side, false);
    let t1 = sc.spec_toggle(m.src, Piece::Pawn, side, false);
    lemma_piece_on_none(t1, m.dest, side);
    lemma_off_toggle(t1, m.dest, m.promotion.unwrap(), side, true);
}

/// The hash after a castling whose rook stands on its corner.
proof fn lemma_off_castling(p: Position, m: Move)
    requires
        p.make_move_ok(m),
        mover(p, m) == Piece::King,
        m.src.abs_diff_spec(m.dest) == 2,
        p.pieces.board(Piece::Rook, p.state.to_move).has(castle_rook(m.dest).0),
    ensures
        hash_off(p.spec_make_move(m)) == hash_off(p),
{
    let side = p.state.to_move;
    let r0 = castle_rook(m.dest).0;
    let r1 = castle_rook(m.dest).1;
    let sc = p.stage_captured(m);
    lemma_off_captured(p, m);
    let kq = sc.spec_king_moved_rights(side);
    lemma_off_rights(sc, m, side);
    lemma_rights_keep_boards(sc, m, side);
    assert(kq.pieces.board(Piece::Rook, side).has(r0));
    lemma_off_toggle(kq, r0, Piece::Rook, side, false);
    let k1 = kq.spec_toggle(r0, Piece::Rook, side, false);
    lemma_toggle_has(kq, r0, Piece::Rook, side, false);
    lemma_piece_on_none(sc, r1, side);
    assert(r0 != r1);
    assert(!k1.pieces.board(Piece::Rook, side).has(r1));
    lemma_off_toggle(k1, r1, Piece::Rook, side, true);
    let sb = k1.spec_toggle(r1, Piece::Rook, side, true);
    lemma_toggle_has(k1, r1, Piece::Rook, side, true);
    assert(p.stage_before_move(m) == sb);
    lemma_piece_on_board(p, m.src, side);
    assert(sb.pieces.board(Piece::King, side) == p.pieces.board(Piece::King, side));
    lemma_piece_on_none(sb, m.dest, side);
    lemma_off_move_piece(sb, m.src, m.dest, Piece::King, side);
}

/// The hash after a move that is neither en passant, promotion nor castling.
proof fn lemma_off_plain(p: Position, m: Move)
    requires
        p.make_move_ok(m),
        !p.is_en_passant(m),
        !p.is_promotion_move(m),
        !(mover(p, m) == Piece::King && m.src.abs_diff_spec(m.dest) == 2),
    ensures
        hash_off(p.spec_make_move(m)) == hash_off(p),
{
    let side = p.state.to_move;
    let piece = mover(p, m);
    let sc = p.stage_captured(m);
    lemma_off_captured(p, m);
    lemma_off_rights(sc, m, side);
    lemma_rights_keep_boards(sc, m, side);
    lemma_off_rights(sc.spec_king_moved_rights(side), m, side);
    lemma_rights_keep_boards(sc.spec_king_moved_rights(side), m, side);
    let sb = p.stage_before_move(m);
    lemma_stage_before_boards(p, m);
    assert(hash_off(sb) == hash_off(p));
    lemma_piece_on_board(p, m.src, side);
    assert(sb.pieces.board(piece, side) == p.pieces.board(piece, side));
    lemma_piece_on_none(sb, m.dest, side);
    lemma_off_move_piece(sb, m.src, m.dest, piece, side);
}

/// Making a move keeps the stored hash equal to the hash of the pieces and the state:
/// for every move that can be made from a position whose hash is right, castling only
/// with a rook on the corner and taking en passant only a pawn.
pub proof fn lemma_make_keeps_hash(p: Position, m: Move)
    requires
        p.hash_ok(),
        p.make_move_ok(m),
        mover(p, m) == Piece::King && m.src.abs_diff_spec(m.dest) == 2 ==> p.pieces.board(Piece::Rook, p.state.to_move).has(
            castle_rook(m.dest).0,
        ),
        p.is_en_passant(m) ==> p.pieces.board(Piece::Pawn, p.state.to_move.opp()).has(en_passant_victim(p, m)),
    ensures
        p.spec_make_move(m).hash_ok(),
{
    lemma_off_zero(p);
    if p.is_en_passant(m) {
        lemma_off_en_passant(p, m);
    } else if p.is_promotion_move(m) {
        lemma_off_promotion(p, m);
    } else if mover(p, m) == Piece::King && m.src.abs_diff_spec(m.dest) == 2 {
        lemma_off_castling(p, m);
    } else {
        lemma_off_plain(p, m);
    }
    lemma_off_zero(p.spec_make_move(m));
}

/// The stored hash with the state's keys taken out: what the piece keys folded into it
/// add up to.
pub open spec fn zr(p: Position) -> u64 {
    p.zobrist_hash.0 ^ state_hash(p.state)
}

/// Toggling a bit folds its key in.
proof fn lemma_zr_toggle(p: Position, sq: Square, piece: Piece, side: Side, on: bool)
    ensures
        zr(p.spec_toggle(sq, piece, side, on)) == zr(p) ^ piece_key(piece, side, sq),
        p.spec_toggle(sq, piece, side, on).state == p.state,
{
    let z = p.zobrist_hash.0;
    let h = state_hash(p.state);
    let k = piece_key(piece, side, sq);
    lemma_xor_toolkit(z, k, h);
}

/// Moving a piece folds in the keys of both squares.
proof fn lemma_zr_move_piece(p: Position, src: Square, dest: Square, piece: Piece, side: Side)
    ensures
        zr(p.spec_move_piece(src, dest, piece, side)) == (zr(p) ^ piece_key(piece, side, src)) ^ piece_key(piece, side, dest),
        p.spec_move_piece(src, dest, piece, side).state == p.state,
{
    lemma_zr_toggle(p, src, piece, side, false);
    lemma_zr_toggle(p.spec_toggle(src, piece, side, false), dest, piece, side, true);
}

/// Folding a key into the stored hash folds it into `zr`.
proof fn lemma_zr_flip(p: Position, k: u64)
    ensures
        zr(p.spec_flip(k)) == zr(p) ^ k,
{
    let z = p.zobrist_hash.0;
    let h = state_hash(p.state);
    lemma_xor_toolkit(z, k, h);
}

/// Replacing the state folds in the two states' hashes.
proof fn lemma_zr_state(p: Position, s2: State)
    ensures
        zr(p.spec_with_state(s2)) == zr(p) ^ (state_hash(p.state) ^ state_hash(s2)),
{
    let z = p.zobrist_hash.0;
    let h = state_hash(p.state);
    let h2 = state_hash(s2);
    lemma_xor_toolkit(z, h, h2);
}

/// Losing a castling right leaves `zr` alone.
proof fn lemma_zr_lose_right(p: Position, k: int, cond: bool)
    requires
        0 <= k < 4,
    ensures
        zr(p.spec_lose_right(k, cond)) == zr(p),
{
    if cond && right_held(p.state.castling_rights, k) {
        let s2 = State { castling_rights: without_right(p.state.castling_rights, k), ..p.state };
        lemma_off_lose_right(p, k, cond);
        lemma_zr_state(p, s2);
        lemma_zr_flip(p.spec_with_state(s2), ZOBRIST_CASTLING_KEYS[k]);
        lemma_xor_basics(zr(p), ZOBRIST_CASTLING_KEYS[k]);
        assert(state_hash(p.state) ^ state_hash(s2) == ZOBRIST_CASTLING_KEYS[k]) by {
            lemma_state_hash_diff(p.state, s2);
            let k1 = state_keys(p.state);
            let k2 = state_keys(s2);
            let key = ZOBRIST_CASTLING_KEYS[k];
            lemma_xor_basics(k1.0, 0);
            lemma_xor_basics(k1.1, 0);
            lemma_xor_basics(k1.2, 0);
            lemma_xor_basics(k1.3, 0);
            lemma_xor_basics(k1.4, 0);
            lemma_xor_basics(k1.5, 0);
            lemma_xor_basics(key, 0);
            lemma_xor6_units(key, 0, 0);
            if k == 0 {
                assert(k1.1 ^ k2.1 == key && k1.2 ^ k2.2 == 0 && k1.3 ^ k2.3 == 0 && k1.4 ^ k2.4 == 0);
            } else if k == 1 {
                assert(k1.1 ^ k2.1 == 0 && k1.2 ^ k2.2 == key && k1.3 ^ k2.3 == 0 && k1.4 ^ k2.4 == 0);
            } else if k == 2 {
                assert(k1.1 ^ k2.1 == 0 && k1.2 ^ k2.2 == 0 && k1.3 ^ k2.3 == key && k1.4 ^ k2.4 == 0);
            } else {
                assert(k1.1 ^ k2.1 == 0 && k1.2 ^ k2.2 == 0 && k1.3 ^ k2.3 == 0 && k1.4 ^ k2.4 == key);
            }
        }
    }
}

/// Handling the castling rights leaves `zr` alone.
proof fn lemma_zr_rights(r: Position, m: Move, side: Side)
    ensures
        zr(r.spec_rook_captured_rights(m.dest)) == zr(r),
        zr(r.spec_king_moved_rights(side)) == zr(r),
        zr(r.spec_rook_moved_rights(m.src)) == zr(r),
{
    lemma_zr_lose_right(r, 0, true);
    lemma_zr_lose_right(r, 1, true);
    lemma_zr_lose_right(r, 2, true);
    lemma_zr_lose_right(r, 3, true);
    lemma_zr_lose_right(r.spec_lose_right(1, true), 0, true);
    lemma_zr_lose_right(r.spec_lose_right(3, true), 2, true);
}

/// The first stage of a move folds in the side-to-move key and the old target's key.
proof fn lemma_zr_common(p: Position)
    ensures
        zr(p.stage_common()) == zr(p) ^ (ZOBRIST_BLACK_TO_MOVE_KEY ^ en_passant_term(p.state.en_passant_target)),
{
    let counter = if p.state.to_move == Side::Black {
        (p.state.full_move_counter + 1) as u8
    } else {
        p.state.full_move_counter
    };
    let s1 = State { full_move_counter: counter, ..p.state };
    let a = p.spec_with_state(s1);
    lemma_zr_state(p, s1);
    assert(state_hash(s1) == state_hash(p.state));
    lemma_xor_basics(state_hash(s1), 0);
    lemma_xor_basics(zr(p), 0);
    let b = a.spec_flip(ZOBRIST_BLACK_TO_MOVE_KEY);
    lemma_zr_flip(a, ZOBRIST_BLACK_TO_MOVE_KEY);
    let e = en_passant_term(p.state.en_passant_target);
    lemma_zr_flip(b, e);
    let o = zr(p);
    let k = ZOBRIST_BLACK_TO_MOVE_KEY;
    lemma_xor_toolkit(o, k, e);
}

/// The key of the piece a move that is not en passant takes, none when it takes none.
pub open spec fn taken_key(p: Position, m: Move) -> u64 {
    match taken(p, m) {
        Some(cp) => piece_key(cp, p.state.to_move.opp(), m.dest),
        None => 0,
    }
}

/// The capture stage folds in the taken piece's key.
proof fn lemma_zr_captured(p: Position, m: Move)
    requires
        !p.is_en_passant(m),
    ensures
        zr(p.stage_captured(m)) == zr(p) ^ taken_key(p, m),
{
    let side = p.state.to_move;
    let opp = side.opp();
    let piece = p.piece_on(m.src, side).unwrap();
    let captured = p.piece_on(m.dest, opp);
    let p1 = p.stage_common();
    lemma_zr_common(p);
    lemma_off_common(p);
    let clock = if piece == Piece::Pawn || captured is Some { 0u8 } else { (p.state.half_move_clock + 1) as u8 };
    let s2 = State { to_move: opp, half_move_clock: clock, ..p1.state };
    let p2 = p1.spec_with_state(s2);
    lemma_zr_state(p1, s2);
    lemma_side_change(p1.state, s2);
    let o = zr(p);
    let b = ZOBRIST_BLACK_TO_MOVE_KEY;
    let e = en_passant_term(p.state.en_passant_target);
    let c = taken_key(p, m);
    lemma_xor_cancel(o, b, e, 0);
    assert(zr(p2) == o ^ e);
    let p3 = match captured {
        Some(cp) => {
            let q = p2.spec_toggle(m.dest, cp, opp, false);
            if cp == Piece::Rook {
                q.spec_rook_captured_rights(m.dest)
            } else {
                q
            }
        },
        None => p2,
    };
    if let Some(cp) = captured {
        lemma_zr_toggle(p2, m.dest, cp, opp, false);
        let q = p2.spec_toggle(m.dest, cp, opp, false);
        lemma_zr_rights(q, m, side);
        lemma_off_rights(q, m, side);
    } else {
        lemma_xor_basics(o ^ e, 0);
    }
    assert(zr(p3) == (o ^ e) ^ c);
    assert(p3.state.en_passant_target == p.state.en_passant_target);
    assert(p3.state.to_move == opp);
    lemma_xor_cancel(o, c, e, 0);
    if piece == Piece::Pawn && m.src.abs_diff_spec(m.dest) == 16 {
        let t = step_sq(m.src, forward(side));
        let s4 = State { en_passant_target: Some(t), ..p3.state };
        lemma_zr_state(p3, s4);
        lemma_target_change(p3.state, s4);
        let et = en_passant_term(Some(t));
        lemma_zr_flip(p3.spec_with_state(s4), et);
        lemma_xor_cancel(o, c, e, et);
    } else {
        let s4 = State { en_passant_target: None, ..p3.state };
        lemma_zr_state(p3, s4);
        lemma_target_change(p3.state, s4);
    }
}

/// The piece keys a move folds in.
pub open spec fn make_keys(p: Position, m: Move) -> u64 {
    let side = p.state.to_move;
    let piece = mover(p, m);
    if p.is_en_passant(m) {
        (piece_key(Piece::Pawn, side, m.src) ^ piece_key(Piece::Pawn, side, m.dest)) ^ piece_key(
            Piece::Pawn,
            side.opp(),
            en_passant_victim(p, m),
        )
    } else if p.is_promotion_move(m) {
        taken_key(p, m) ^ (piece_key(Piece::Pawn, side, m.src) ^ piece_key(m.promotion.unwrap(), side, m.dest))
    } else if piece == Piece::King && m.src.abs_diff_spec(m.dest) == 2 {
        taken_key(p, m) ^ (((piece_key(Piece::Rook, side, castle_rook(m.dest).0) ^ piece_key(Piece::Rook, side, castle_rook(m.dest).1))
            ^ piece_key(piece, side, m.src)) ^ piece_key(piece, side, m.dest))
    } else {
        taken_key(p, m) ^ (piece_key(piece, side, m.src) ^ piece_key(piece, side, m.dest))
    }
}

/// A move folds its piece keys into `zr`.
proof fn lemma_zr_make(p: Position, m: Move)
    ensures
        zr(p.spec_make_move(m)) == zr(p) ^ make_keys(p, m),
{
    let side = p.state.to_move;
    let opp = side.opp();
    let piece = mover(p, m);
    if p.is_en_passant(m) {
        let cap = en_passant_victim(p, m);
        let c0 = p.stage_common();
        lemma_zr_common(p);
        lemma_off_common(p);
        lemma_zr_move_piece(c0, m.src, m.dest, Piece::Pawn, side);
        let c2 = c0.spec_move_piece(m.src, m.dest, Piece::Pawn, side);
        lemma_zr_toggle(c2, cap, Piece::Pawn, opp, false);
        let c3 = c2.spec_toggle(cap, Piece::Pawn, opp, false);
        let s4 = State { en_passant_target: None, to_move: opp, ..c3.state };
        assert(p.spec_make_move(m) == c3.spec_with_state(s4));
        lemma_zr_state(c3, s4);
        lemma_side_target_change(c3.state, s4);
        let o = zr(p);
        let b = ZOBRIST_BLACK_TO_MOVE_KEY;
        let e = en_passant_term(p.state.en_passant_target);
        let k1 = piece_key(Piece::Pawn, side, m.src);
        let k2 = piece_key(Piece::Pawn, side, m.dest);
        let k3 = piece_key(Piece::Pawn, opp, cap);
        lemma_key_algebra(o, k1, b, k3, e, 0, k2, 0, 0, 0, 0, 0);
    } else {
        let sc = p.stage_captured(m);
        lemma_zr_captured(p, m);
        let o = zr(p);
        let c = taken_key(p, m);
        let ks = piece_key(piece, side, m.src);
        let kd = piece_key(piece, side, m.dest);
        if p.is_promotion_move(m) {
            let kp = piece_key(Piece::Pawn, side, m.src);
            let kq = piece_key(m.promotion.unwrap(), side, m.dest);
            lemma_zr_toggle(sc, m.src, Piece::Pawn, side, false);
            lemma_zr_toggle(sc.spec_toggle(m.src, Piece::Pawn, side, false), m.dest, m.promotion.unwrap(), side, true);
            lemma_key_algebra(o, 0, 0, c, 0, kp, kq, 0, 0, 0, 0, 0);
        } else if piece == Piece::King && m.src.abs_diff_spec(m.dest) == 2 {
            let r0 = castle_rook(m.dest).0;
            let r1 = castle_rook(m.dest).1;
            let kq = sc.spec_king_moved_rights(side);
            lemma_zr_rights(sc, m, side);
            lemma_zr_move_piece(kq, r0, r1, Piece::Rook, side);
            let sb = kq.spec_move_piece(r0, r1, Piece::Rook, side);
            assert(p.stage_before_move(m) == sb);
            lemma_zr_move_piece(sb, m.src, m.dest, piece, side);
            let a = piece_key(Piece::Rook, side, r0);
            let b = piece_key(Piece::Rook, side, r1);
            lemma_key_algebra(o, a, b, c, 0, ks, kd, 0, 0, 0, 0, 0);
        } else {
            lemma_zr_rights(sc, m, side);
            lemma_zr_rights(sc.spec_king_moved_rights(side), m, side);
            let sb = p.stage_before_move(m);
            assert(zr(sb) == o ^ c);
            lemma_zr_move_piece(sb, m.src, m.dest, piece, side);
            lemma_key_algebra(o, 0, 0, c, 0, ks, kd, 0, 0, 0, 0, 0);
        }
    }
}

/// The rearrangements of keys that making and taking back a move call for.
proof fn lemma_key_algebra(o: u64, a: u64, b: u64, c: u64, e: u64, ks: u64, kd: u64, t: u64, x0: u64, x1: u64, x2: u64, x3: u64)
    ensures
        ((((o ^ (b ^ e)) ^ a) ^ kd) ^ c) ^ (b ^ (e ^ 0)) == o ^ ((a ^ kd) ^ c),
        ((((o ^ c) ^ a) ^ b) ^ ks) ^ kd == o ^ (c ^ (((a ^ b) ^ ks) ^ kd)),
        ((o ^ c) ^ ks) ^ kd == o ^ (c ^ (ks ^ kd)),
        ((((o ^ x1) ^ x0) ^ x3) ^ x2) ^ xor6(0, x0, x1, x2, x3, 0) == o,
        ((((o ^ e) ^ kd) ^ ks) ^ a) ^ c == (o ^ e) ^ ((kd ^ ks) ^ (a ^ c)),
        ((o ^ e) ^ kd) ^ ks == (o ^ e) ^ ((kd ^ ks) ^ 0),
        (o ^ ((a ^ b) ^ c)) ^ ((b ^ a ^ 0) ^ c) == o,
        (o ^ (t ^ (((a ^ b) ^ ks) ^ kd))) ^ (((kd ^ ks) ^ (b ^ a)) ^ t) == o,
        (o ^ (t ^ (ks ^ kd))) ^ (((kd ^ ks) ^ 0) ^ t) == o,
{
    assert(((((o ^ (b ^ e)) ^ a) ^ kd) ^ c) ^ (b ^ (e ^ 0)) == o ^ ((a ^ kd) ^ c) && ((((o ^ c) ^ a) ^ b) ^ ks) ^ kd == o ^ (c
        ^ (((a ^ b) ^ ks) ^ kd)) && ((o ^ c) ^ ks) ^ kd == o ^ (c ^ (ks ^ kd)) && ((((o ^ x1) ^ x0) ^ x3) ^ x2) ^ xor6(
        0,
        x0,
        x1,
        x2,
        x3,
        0,
    ) == o && ((((o ^ e) ^ kd) ^ ks) ^ a) ^ c == (o ^ e) ^ ((kd ^ ks) ^ (a ^ c)) && ((o ^ e) ^ kd) ^ ks == (o ^ e) ^ ((kd
        ^ ks) ^ 0) && (o ^ ((a ^ b) ^ c)) ^ ((b ^ a ^ 0) ^ c) == o && (o ^ (t ^ (((a ^ b) ^ ks) ^ kd))) ^ (((kd ^ ks) ^ (b
        ^ a)) ^ t) == o && (o ^ (t ^ (ks ^ kd))) ^ (((kd ^ ks) ^ 0) ^ t) == o) by (bit_vector);
}

/// A castling right's key when the two values of the right differ.
proof fn lemma_castle_term_diff(a: bool, b: bool, k: int)
    ensures
        castle_term(a, k) ^ castle_term(b, k) == if a != b { ZOBRIST_CASTLING_KEYS[k] } else { 0 },
{
    lemma_xor_basics(ZOBRIST_CASTLING_KEYS[k], 0);
    lemma_xor_basics(0, 0);
}

/// The castling keys folded in when a move is taken back are exactly the keys of the
/// rights that change.
proof fn lemma_zr_unmake_rights(q: Position, undo: UnmakeMoveState)
    ensures
        zr(q.spec_unmake_rights(undo)) == zr(q),
        q.spec_unmake_rights(undo).state == (State { castling_rights: undo.castling_rights, ..q.state }),
{
    let c = q.state.castling_rights;
    let u = undo.castling_rights;
    let x0 = if c.white_king_side != u.white_king_side { ZOBRIST_CASTLING_KEYS[0] } else { 0 };
    let x1 = if c.white_queen_side != u.white_queen_side { ZOBRIST_CASTLING_KEYS[1] } else { 0 };
    let x2 = if c.black_king_side != u.black_king_side { ZOBRIST_CASTLING_KEYS[2] } else { 0 };
    let x3 = if c.black_queen_side != u.black_queen_side { ZOBRIST_CASTLING_KEYS[3] } else { 0 };
    let p1 = if c.white_queen_side != u.white_queen_side { q.spec_flip(ZOBRIST_CASTLING_KEYS[1]) } else { q };
    let p2 = if c.white_king_side != u.white_king_side { p1.spec_flip(ZOBRIST_CASTLING_KEYS[0]) } else { p1 };
    let p3 = if c.black_queen_side != u.black_queen_side { p2.spec_flip(ZOBRIST_CASTLING_KEYS[3]) } else { p2 };
    let p4 = if c.black_king_side != u.black_king_side { p3.spec_flip(ZOBRIST_CASTLING_KEYS[2]) } else { p3 };
    let o = zr(q);
    lemma_zr_flip(q, ZOBRIST_CASTLING_KEYS[1]);
    lemma_zr_flip(p1, ZOBRIST_CASTLING_KEYS[0]);
    lemma_zr_flip(p2, ZOBRIST_CASTLING_KEYS[3]);
    lemma_zr_flip(p3, ZOBRIST_CASTLING_KEYS[2]);
    lemma_xor_basics(o, 0);
    lemma_xor_basics(o ^ x1, 0);
    lemma_xor_basics((o ^ x1) ^ x0, 0);
    lemma_xor_basics(((o ^ x1) ^ x0) ^ x3, 0);
    assert(zr(p4) == (((o ^ x1) ^ x0) ^ x3) ^ x2);
    let s2 = State { castling_rights: u, ..p4.state };
    lemma_zr_state(p4, s2);
    lemma_state_hash_diff(p4.state, s2);
    let k = state_keys(p4.state);
    let k2 = state_keys(s2);
    lemma_xor_basics(k.0, 0);
    lemma_xor_basics(k.5, 0);
    lemma_castle_term_diff(c.white_king_side, u.white_king_side, 0);
    lemma_castle_term_diff(c.white_queen_side, u.white_queen_side, 1);
    lemma_castle_term_diff(c.black_king_side, u.black_king_side, 2);
    lemma_castle_term_diff(c.black_queen_side, u.black_queen_side, 3);
    assert(state_hash(p4.state) ^ state_hash(s2) == xor6(0, x0, x1, x2, x3, 0));
    lemma_key_algebra(o, 0, 0, 0, 0, 0, 0, 0, x0, x1, x2, x3);
}

/// The piece keys folded in when a move is taken back.
pub open spec fn unmake_keys(q: Position, undo: UnmakeMoveState) -> u64 {
    let m = undo.mve;
    let opp = q.state.to_move;
    let side = opp.opp();
    let pm = undo.piece_moved;
    let back = match m.promotion {
        Some(pp) => piece_key(pp, side, m.dest) ^ piece_key(Piece::Pawn, side, m.src),
        None => piece_key(pm, side, m.dest) ^ piece_key(pm, side, m.src),
    };
    let rook = if m.promotion is None && pm == Piece::King && m.src.abs_diff_spec(m.dest) == 2 {
        piece_key(Piece::Rook, side, castle_rook(m.dest).1) ^ piece_key(Piece::Rook, side, castle_rook(m.dest).0)
    } else {
        0
    };
    let restore = if undo.en_passant_target == Some(m.dest) && pm == Piece::Pawn {
        piece_key(Piece::Pawn, opp, step_sq(m.dest, backward(side)))
    } else {
        match undo.captured_piece {
            Some(c) => piece_key(c, opp, m.dest),
            None => 0,
        }
    };
    (back ^ rook) ^ restore
}

/// Taking back a move folds its piece keys into `zr`.
proof fn lemma_zr_unmake(q: Position, undo: UnmakeMoveState)
    ensures
        zr(q.spec_unmake_move(undo)) == zr(q) ^ unmake_keys(q, undo),
{
    let m = undo.mve;
    let opp = q.state.to_move;
    let side = opp.opp();
    let pm = undo.piece_moved;
    let r = q.spec_unmake_rights(undo);
    lemma_zr_unmake_rights(q, undo);
    let p2 = r.spec_flip(en_passant_term(r.state.en_passant_target));
    lemma_zr_flip(r, en_passant_term(r.state.en_passant_target));
    let counter = if side == Side::Black { (p2.state.full_move_counter - 1) as u8 } else { p2.state.full_move_counter };
    let s3 = State {
        en_passant_target: undo.en_passant_target,
        half_move_clock: undo.half_move_clock,
        full_move_counter: counter,
        to_move: side,
        ..p2.state
    };
    let p3 = p2.spec_with_state(s3);
    lemma_zr_state(p2, s3);
    lemma_side_target_change(p2.state, s3);
    let st = p3.spec_flip(ZOBRIST_BLACK_TO_MOVE_KEY);
    assert(q.stage_unmake_state(undo) == st);
    lemma_zr_flip(p3, ZOBRIST_BLACK_TO_MOVE_KEY);
    let o = zr(q);
    let b = ZOBRIST_BLACK_TO_MOVE_KEY;
    let e = en_passant_term(q.state.en_passant_target);
    let eu = en_passant_term(undo.en_passant_target);
    lemma_xor_cancel(o, b, e, eu);
    assert(zr(st) == o ^ eu);
    let (kd, ks) = match m.promotion {
        Some(pr) => (piece_key(pr, side, m.dest), piece_key(Piece::Pawn, side, m.src)),
        None => (piece_key(pm, side, m.dest), piece_key(pm, side, m.src)),
    };
    let p1 = match m.promotion {
        Some(pr) => {
            lemma_zr_toggle(st, m.dest, pr, side, false);
            lemma_zr_toggle(st.spec_toggle(m.dest, pr, side, false), m.src, Piece::Pawn, side, true);
            st.spec_toggle(m.dest, pr, side, false).spec_toggle(m.src, Piece::Pawn, side, true)
        },
        None => {
            lemma_zr_move_piece(st, m.dest, m.src, pm, side);
            st.spec_move_piece(m.dest, m.src, pm, side)
        },
    };
    assert(zr(p1) == (zr(st) ^ kd) ^ ks);
    let rook = if m.promotion is None && pm == Piece::King && m.src.abs_diff_spec(m.dest) == 2 {
        piece_key(Piece::Rook, side, castle_rook(m.dest).1) ^ piece_key(Piece::Rook, side, castle_rook(m.dest).0)
    } else {
        0
    };
    let pp = q.stage_unmake_pieces(undo);
    if m.promotion is None && pm == Piece::King && m.src.abs_diff_spec(m.dest) == 2 {
        lemma_zr_move_piece(p1, castle_rook(m.dest).1, castle_rook(m.dest).0, Piece::Rook, side);
        let a = piece_key(Piece::Rook, side, castle_rook(m.dest).1);
        let c = piece_key(Piece::Rook, side, castle_rook(m.dest).0);
        lemma_key_algebra(o, a, 0, c, eu, ks, kd, 0, 0, 0, 0, 0);
    } else {
        lemma_key_algebra(o, 0, 0, 0, eu, ks, kd, 0, 0, 0, 0, 0);
    }
    assert(zr(pp) == (o ^ eu) ^ ((kd ^ ks) ^ rook));
    let restore = if undo.en_passant_target == Some(m.dest) && pm == Piece::Pawn {
        piece_key(Piece::Pawn, opp, step_sq(m.dest, backward(side)))
    } else {
        match undo.captured_piece {
            Some(c) => piece_key(c, opp, m.dest),
            None => 0,
        }
    };
    let w = (kd ^ ks) ^ rook;
    match undo.en_passant_target {
        Some(t) => {
            let qq = pp.spec_flip(en_passant_term(Some(t)));
            lemma_zr_flip(pp, en_passant_term(Some(t)));
            lemma_xor_cancel(o, w, eu, 0);
            if m.dest == t && pm == Piece::Pawn {
                lemma_zr_toggle(qq, step_sq(t, backward(side)), Piece::Pawn, opp, true);
            } else {
                match undo.captured_piece {
                    Some(c) => {
                        lemma_zr_toggle(qq, m.dest, c, opp, true);
                    },
                    None => {
                        lemma_xor_basics(o ^ w, 0);
                    },
                }
            }
            lemma_xor_cancel(o, w, 0, restore);
        },
        None => {
            assert(eu == 0);
            lemma_xor_basics(o, 0);
            match undo.captured_piece {
                Some(c) => {
                    lemma_zr_toggle(pp, m.dest, c, opp, true);
                },
                None => {
                    lemma_xor_basics(o ^ w, 0);
                },
            }
            lemma_xor_cancel(o, w, 0, restore);
        },
    }
}

/// After a move the other side is to move.
proof fn lemma_make_side(p: Position, m: Move)
    ensures
        p.spec_make_move(m).state.to_move == p.state.to_move.opp(),
{
    let side = p.state.to_move;
    if !p.is_en_passant(m) {
        lemma_stage_captured_boards(p, m);
        let sc = p.stage_captured(m);
        lemma_rights_keep_boards(sc, m, side);
        lemma_rights_keep_boards(sc.spec_king_moved_rights(side), m, side);
        let kq = sc.spec_king_moved_rights(side);
        lemma_zr_move_piece(kq, castle_rook(m.dest).0, castle_rook(m.dest).1, Piece::Rook, side);
        let sb = p.stage_before_move(m);
        lemma_rights_keep_boards(kq.spec_move_piece(castle_rook(m.dest).0, castle_rook(m.dest).1, Piece::Rook, side), m, side);
        lemma_rights_keep_boards(kq, m, side);
        assert(sb.state.to_move == side.opp());
        lemma_zr_move_piece(sb, m.src, m.dest, mover(p, m), side);
        lemma_zr_toggle(sc, m.src, Piece::Pawn, side, false);
        lemma_zr_toggle(sc.spec_toggle(m.src, Piece::Pawn, side, false), m.dest, m.promotion.unwrap(), side, true);
    }
}

/// Making a move and taking it back with what `make_move` returned gives back the whole
/// position, hash included: for every move of `lemma_unmake_restores`.
pub proof fn lemma_unmake_restores_hash(p: Position, m: Move)
    requires
        p.wf(),
        p.make_move_ok(m),
        m.src != m.dest,
        (m.promotion is Some) == (p.is_promotion_move(m) && !p.is_en_passant(m)),
        m.promotion != Some(Piece::Pawn),
        mover(p, m) == Piece::King && m.src.abs_diff_spec(m.dest) == 2 ==> p.pieces.board(Piece::Rook, p.state.to_move).has(
            castle_rook(m.dest).0,
        ),
        p.is_en_passant(m) ==> p.state.half_move_clock == 0 && p.pieces.board(Piece::Pawn, p.state.to_move.opp()).has(
            en_passant_victim(p, m),
        ),
    ensures
        p.spec_make_move(m).spec_unmake_move(p.spec_undo_state(m)) == p,
{
    let q = p.spec_make_move(m);
    let undo = p.spec_undo_state(m);
    let u = q.spec_unmake_move(undo);
    lemma_unmake_restores(p, m);
    assert(u.state == p.state);
    lemma_zr_make(p, m);
    lemma_zr_unmake(q, undo);
    lemma_make_side(p, m);
    let side = p.state.to_move;
    let opp = side.opp();
    let o = zr(p);
    if p.is_en_passant(m) {
        let a = piece_key(Piece::Pawn, side, m.src);
        let b = piece_key(Piece::Pawn, side, m.dest);
        let c = piece_key(Piece::Pawn, opp, en_passant_victim(p, m));
        assert(unmake_keys(q, undo) == (b ^ a ^ 0) ^ c);
        lemma_key_algebra(o, a, b, c, 0, 0, 0, 0, 0, 0, 0, 0);
    } else {
        let piece = mover(p, m);
        let t = taken_key(p, m);
        let ks = piece_key(piece, side, m.src);
        let kd = piece_key(piece, side, m.dest);
        assert(!(undo.en_passant_target == Some(m.dest) && undo.piece_moved == Piece::Pawn));
        if p.is_promotion_move(m) {
            let kp = piece_key(Piece::Pawn, side, m.src);
            let kq = piece_key(m.promotion.unwrap(), side, m.dest);
            assert(unmake_keys(q, undo) == ((kq ^ kp) ^ 0) ^ t);
            lemma_key_algebra(o, 0, 0, 0, 0, kp, kq, t, 0, 0, 0, 0);
        } else if piece == Piece::King && m.src.abs_diff_spec(m.dest) == 2 {
            let a = piece_key(Piece::Rook, side, castle_rook(m.dest).0);
            let b = piece_key(Piece::Rook, side, castle_rook(m.dest).1);
            assert(unmake_keys(q, undo) == ((kd ^ ks) ^ (b ^ a)) ^ t);
            lemma_key_algebra(o, a, b, 0, 0, ks, kd, t, 0, 0, 0, 0);
        } else {
            assert(unmake_keys(q, undo) == ((kd ^ ks) ^ 0) ^ t);
            lemma_key_algebra(o, 0, 0, 0, 0, ks, kd, t, 0, 0, 0, 0);
        }
    }
    assert(zr(u) == o);
    let zu = u.zobrist_hash.0;
    let zp = p.zobrist_hash.0;
    let h = state_hash(p.state);
    lemma_xor_toolkit(zu, h, h);
    lemma_xor_toolkit(zp, h, h);
    assert(u.zobrist_hash == p.zobrist_hash);
}

} // verus!
