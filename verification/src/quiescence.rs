//! The quiescence search at the leaves of the alpha-beta search: standing pat, then the
//! captures and the queen and knight promotions (every move in check) until the position
//! is quiet.
use vstd::prelude::*;

use std::sync::atomic::AtomicBool;
use std::time::Instant;

use crate::evaluation::{in_range, spec_flip, spec_mate_in, Eval, PositionEvaluator};
use crate::move_gen::MoveGen;
use crate::perft::has_king;
use crate::position::{Move, Piece, Position};
use crate::search::{clamp_eval, elapsed_ms, is_terminated, no_move_score, order_moves, sorted_moves, stand_pat, SearchParams, SearchStats};

verus! {

/// The move takes a piece or promotes to a queen or a knight.
pub open spec fn is_noisy(p: Position, m: Move) -> bool {
    p.sides.of(p.state.to_move.opp()).has(m.dest) || m.promotion == Some(Piece::Queen) || m.promotion == Some(Piece::Knight)
}

/// The moves that take a piece or promote to a queen or a knight, in their order.
pub open spec fn noisy_of(p: Position, s: Seq<Move>) -> Seq<Move>
    decreases s.len(),
{
    if s.len() == 0 {
        s
    } else {
        let t = noisy_of(p, s.drop_last());
        if is_noisy(p, s.last()) { t.push(s.last()) } else { t }
    }
}

/// The moves that take a piece or promote to a queen or a knight.
fn noisy_moves(moves: &Vec<Move>, position: &Position) -> (r: Vec<Move>)
    ensures
        r@ == noisy_of(*position, moves@),
{
    let mut out: Vec<Move> = Vec::new();
    let mut i: usize = 0;
    while i < moves.len()
        invariant
            i <= moves.len(),
            out@ == noisy_of(*position, moves@.take(i as int)),
        decreases moves.len() - i,
    {
        let mve = moves[i];
        proof {
            assert(moves@.take(i + 1).drop_last() =~= moves@.take(i as int));
            assert(moves@.take(i + 1).last() == mve);
        }
        if position.is_capture(&mve) || mve.promotion == Some(Piece::Queen) || mve.promotion == Some(Piece::Knight) {
            out.push(mve);
        }
        i += 1;
    }
    proof {
        assert(moves@.take(moves.len() as int) =~= moves@);
    }
    out
}

/// The moves quiescence looks at, in the order it looks at them: every move in check,
/// else the noisy ones, ordered by sort key.
pub open spec fn quiescence_moves(g: MoveGen, p: Position) -> Seq<Move> {
    let all = g.all_pieces.moves_spec(p);
    sorted_moves(p, None, if g.all_pieces.checkers_word(p) != 0 { all } else { noisy_of(p, all) })
}

/// The larger of two scores.
pub open spec fn max_score(a: int, b: int) -> int {
    if b > a { b } else { a }
}

/// The side to move is in check.
#[verifier::opaque]
pub open spec fn q_check(g: MoveGen, p: Position) -> bool {
    g.all_pieces.checkers_word(p) != 0
}

/// The side to move has no move.
#[verifier::opaque]
pub open spec fn q_none(g: MoveGen, p: Position) -> bool {
    g.all_pieces.moves_spec(p).len() == 0
}

/// The moves quiescence looks at, in order.
#[verifier::opaque]
pub open spec fn q_moves(g: MoveGen, p: Position) -> Seq<Move> {
    quiescence_moves(g, p)
}

/// The move can be made.
#[verifier::opaque]
pub open spec fn q_legal(p: Position, m: Move) -> bool {
    p.make_move_ok(m)
}

/// The position after the move.
#[verifier::opaque]
pub open spec fn q_after(p: Position, m: Move) -> Position {
    p.spec_make_move(m)
}

/// The score of standing pat.
#[verifier::opaque]
pub open spec fn q_stand(g: MoveGen, p: Position) -> int {
    stand_pat(g, p)
}

/// The score without a move.
#[verifier::opaque]
pub open spec fn q_nomove(g: MoveGen, p: Position) -> int {
    no_move_score(g, p)
}

/// The quiescence value of a position searched at depth `cd` of `md` in the window from
/// `alpha` to `beta`: standing pat when not in check at the depth limit or when standing
/// pat reaches `beta`; mate or draw without a move; a draw in check at fifty moves;
/// otherwise the best of standing pat (the worst score in check) and the negated values
/// of the moves that can be made, searched in turn with the window narrowed, stopping at
/// the first that reaches `beta`.
pub open spec fn spec_quiescence(g: MoveGen, p: Position, cd: int, md: int, alpha: int, beta: int) -> int
    decreases 255 - cd, 1int, 0int,
{
    if cd >= 255 || cd < 0 || !has_king(p) {
        0
    } else if !q_check(g, p) && (cd >= 3 * md || q_stand(g, p) >= beta) {
        q_stand(g, p)
    } else if q_none(g, p) {
        q_nomove(g, p)
    } else if q_check(g, p) && p.state.half_move_clock >= 50 {
        0
    } else {
        quiescence_loop(
            g,
            p,
            cd,
            md,
            q_moves(g, p),
            0,
            if !q_check(g, p) { max_score(alpha, q_stand(g, p)) } else { alpha },
            beta,
            if q_check(g, p) { spec_mate_in(0) } else { q_stand(g, p) },
        )
    }
}

/// The rest of the quiescence loop from the `i`-th move, with the window's lower end and
/// the best score so far.
pub open spec fn quiescence_loop(g: MoveGen, p: Position, cd: int, md: int, ms: Seq<Move>, i: int, alpha: int, beta: int, best: int) -> int
    decreases 255 - cd, 0int, ms.len() - i,
{
    if i >= ms.len() || i < 0 || cd >= 255 || cd < 0 {
        best
    } else if !q_legal(p, ms[i]) {
        quiescence_loop(g, p, cd, md, ms, i + 1, alpha, beta, best)
    } else if spec_flip(spec_quiescence(g, q_after(p, ms[i]), cd + 1, md, spec_flip(beta), spec_flip(alpha))) >= beta {
        spec_flip(spec_quiescence(g, q_after(p, ms[i]), cd + 1, md, spec_flip(beta), spec_flip(alpha)))
    } else {
        quiescence_loop(
            g,
            p,
            cd,
            md,
            ms,
            i + 1,
            max_score(alpha, spec_flip(spec_quiescence(g, q_after(p, ms[i]), cd + 1, md, spec_flip(beta), spec_flip(alpha)))),
            beta,
            max_score(best, spec_flip(spec_quiescence(g, q_after(p, ms[i]), cd + 1, md, spec_flip(beta), spec_flip(alpha)))),
        )
    }
}

/// The loop gives at least the best score so far, or a score reaching `beta`.
proof fn lemma_loop_floor(g: MoveGen, p: Position, cd: int, md: int, ms: Seq<Move>, i: int, alpha: int, beta: int, best: int)
    requires
        0 <= i,
        0 <= cd < 255,
    ensures
        quiescence_loop(g, p, cd, md, ms, i, alpha, beta, best) >= beta || quiescence_loop(g, p, cd, md, ms, i, alpha, beta, best) >= best,
    decreases ms.len() - i,
{
    if i < ms.len() {
        if !q_legal(p, ms[i]) {
            lemma_loop_floor(g, p, cd, md, ms, i + 1, alpha, beta, best);
        } else {
            let me = spec_flip(spec_quiescence(g, q_after(p, ms[i]), cd + 1, md, spec_flip(beta), spec_flip(alpha)));
            if me < beta {
                lemma_loop_floor(g, p, cd, md, ms, i + 1, max_score(alpha, me), beta, max_score(best, me));
            }
        }
    }
}

/// Every move from the `i`-th on that can be made is looked at: the loop reaches `beta`,
/// or gives at least the negated value of that move's position searched with the window
/// narrowed to some lower end at least `alpha`.
proof fn lemma_loop_covers(g: MoveGen, p: Position, cd: int, md: int, ms: Seq<Move>, i: int, k: int, alpha: int, beta: int, best: int)
    requires
        0 <= i <= k < ms.len(),
        0 <= cd < 255,
        q_legal(p, ms[k]),
    ensures
        quiescence_loop(g, p, cd, md, ms, i, alpha, beta, best) >= beta || exists|a: int|
            a >= alpha && quiescence_loop(g, p, cd, md, ms, i, alpha, beta, best) >= spec_flip(
                #[trigger] spec_quiescence(g, q_after(p, ms[k]), cd + 1, md, spec_flip(beta), spec_flip(a)),
            ),
    decreases k - i,
{
    let r = quiescence_loop(g, p, cd, md, ms, i, alpha, beta, best);
    if !q_legal(p, ms[i]) {
        lemma_loop_covers(g, p, cd, md, ms, i + 1, k, alpha, beta, best);
    } else {
        let me = spec_flip(spec_quiescence(g, q_after(p, ms[i]), cd + 1, md, spec_flip(beta), spec_flip(alpha)));
        if me < beta {
            if i == k {
                lemma_loop_floor(g, p, cd, md, ms, i + 1, max_score(alpha, me), beta, max_score(best, me));
                assert(r >= spec_flip(spec_quiescence(g, q_after(p, ms[k]), cd + 1, md, spec_flip(beta), spec_flip(alpha))));
            } else {
                lemma_loop_covers(g, p, cd, md, ms, i + 1, k, max_score(alpha, me), beta, max_score(best, me));
            }
        }
    }
}

/// Quiescence looks at every capture and every queen or knight promotion: when the side to
/// move is not in check, below the depth limit, standing pat stays below `beta`, and the
/// side has a move, the value reaches `beta` or is at least the negated value of each
/// noisy move that can be made, searched with the window narrowed to some lower end at
/// least the larger of `alpha` and standing pat.
pub proof fn lemma_quiescence_sees_noisy_moves(g: MoveGen, p: Position, cd: int, md: int, alpha: int, beta: int, m: Move)
    requires
        0 <= cd < 255,
        cd < 3 * md,
        has_king(p),
        g.all_pieces.checkers_word(p) == 0,
        g.all_pieces.moves_spec(p).len() > 0,
        stand_pat(g, p) < beta,
        sorted_moves(p, None, noisy_of(p, g.all_pieces.moves_spec(p))).contains(m),
        p.make_move_ok(m),
    ensures
        spec_quiescence(g, p, cd, md, alpha, beta) >= beta || exists|a: int|
            a >= max_score(alpha, stand_pat(g, p)) && spec_quiescence(g, p, cd, md, alpha, beta) >= spec_flip(
                #[trigger] spec_quiescence(g, p.spec_make_move(m), cd + 1, md, spec_flip(beta), spec_flip(a)),
            ),
{
    reveal(q_check);
    reveal(q_none);
    reveal(q_moves);
    reveal(q_stand);
    reveal(q_legal);
    reveal(q_after);
    let ms = q_moves(g, p);
    let k = choose|k: int| 0 <= k < ms.len() && ms[k] == m;
    lemma_loop_covers(g, p, cd, md, ms, 0, k, max_score(alpha, stand_pat(g, p)), beta, stand_pat(g, p));
}

/// In check quiescence looks at every move: when the side to move is in check, has a
/// move, and the half move clock is below fifty, the value reaches `beta` or is at least
/// the negated value of each move that can be made, searched with the window narrowed to
/// some lower end at least `alpha`.
pub proof fn lemma_quiescence_in_check_sees_all_moves(g: MoveGen, p: Position, cd: int, md: int, alpha: int, beta: int, m: Move)
    requires
        0 <= cd < 255,
        has_king(p),
        g.all_pieces.checkers_word(p) != 0,
        g.all_pieces.moves_spec(p).len() > 0,
        p.state.half_move_clock < 50,
        sorted_moves(p, None, g.all_pieces.moves_spec(p)).contains(m),
        p.make_move_ok(m),
    ensures
        spec_quiescence(g, p, cd, md, alpha, beta) >= beta || exists|a: int|
            a >= alpha && spec_quiescence(g, p, cd, md, alpha, beta) >= spec_flip(
                #[trigger] spec_quiescence(g, p.spec_make_move(m), cd + 1, md, spec_flip(beta), spec_flip(a)),
            ),
{
    reveal(q_check);
    reveal(q_none);
    reveal(q_moves);
    reveal(q_stand);
    reveal(q_legal);
    reveal(q_after);
    let ms = q_moves(g, p);
    let k = choose|k: int| 0 <= k < ms.len() && ms[k] == m;
    lemma_loop_covers(g, p, cd, md, ms, 0, k, alpha, beta, spec_mate_in(0));
}

/// What the names of the quiescence value stand for at a position.
proof fn lemma_q_names(g: MoveGen, p: Position)
    ensures
        q_check(g, p) == (g.all_pieces.checkers_word(p) != 0),
        q_none(g, p) == (g.all_pieces.moves_spec(p).len() == 0),
        q_stand(g, p) == stand_pat(g, p),
        q_nomove(g, p) == no_move_score(g, p),
{
    reveal(q_check);
    reveal(q_none);
    reveal(q_stand);
    reveal(q_nomove);
}

/// Extends the search at the leaves through captures and promotions until the position
/// is quiet, so that no capture is left hanging; in check every move is looked at.
///
/// Gives `None` when the search is stopped: asked to, out of time, or too deep.
#[verifier::rlimit(30)]
pub fn quiescence_search(
    position: &Position,
    params: &SearchParams,
    curr_depth: u8,
    max_depth: u8,
    stats: &mut SearchStats,
    start_time: &Instant,
    alpha: Eval,
    beta: Eval,
    move_gen: &MoveGen,
    position_eval: &PositionEvaluator,
    terminate: &AtomicBool,
) -> (r: Option<Eval>)
    requires
        move_gen.wf(),
        in_range(alpha.0 as int),
        in_range(beta.0 as int),
    ensures
        r matches Some(e) ==> in_range(e.0 as int),
        final(stats).positions_processed >= old(stats).positions_processed,
        final(stats).max_depth_reached >= old(stats).max_depth_reached,
        curr_depth == 255 || !has_king(*position) ==> r is None,
        r matches Some(e) ==> e.0 == spec_quiescence(*move_gen, *position, curr_depth as int, max_depth as int, alpha.0 as int, beta.0 as int),
        r matches Some(e) ==> {
            &&& move_gen.all_pieces.moves_spec(*position).len() == 0 ==> e.0 == no_move_score(*move_gen, *position)
            &&& move_gen.all_pieces.checkers_word(*position) == 0 ==> {
                let sp = stand_pat(*move_gen, *position);
                if curr_depth >= 3 * max_depth || sp >= beta.0 {
                    e.0 == sp
                } else {
                    e.0 >= sp
                }
            }
        },
    decreases 255 - curr_depth,
{
    let mut window = alpha;
    let ghost target = spec_quiescence(*move_gen, *position, curr_depth as int, max_depth as int, alpha.0 as int, beta.0 as int);
    // Stopped when asked to.
    if is_terminated(terminate) {
        return None;
    }
    // Stopped when out of time.
    if let Some(move_time) = params.move_time {
        if elapsed_ms(start_time) >= move_time {
            return None;
        }
    }
    if curr_depth == 255 || position.pieces.get(Piece::King).get(position.state.to_move).is_empty() {
        return None;
    }
    stats.positions_processed = stats.positions_processed.saturating_add(1);
    if curr_depth > stats.max_depth_reached {
        stats.max_depth_reached = curr_depth;
    }
    let checkers = move_gen.gen_checkers(position);
    let ghost sp = stand_pat(*move_gen, *position);
    proof {
        lemma_q_names(*move_gen, *position);
    }
    let mut best_eval = if checkers.is_empty() {
        // A score past a mate's cannot be flipped; it is kept at the mate's.
        let standing_pat = clamp_eval(position_eval.evaluate(position, move_gen).0 as i64);
        if curr_depth as u16 >= max_depth as u16 * 3 {
            return Some(standing_pat);
        }
        if standing_pat.0 >= beta.0 {
            return Some(standing_pat);
        }
        if standing_pat.0 > window.0 {
            window = standing_pat;
        }
        standing_pat
    } else {
        Eval::min_eval()
    };
    let all_moves = move_gen.all_pieces.gen_moves(position);
    if all_moves.len() == 0 {
        if !checkers.is_empty() {
            return Some(Eval::min_eval());
        }
        // Stalemate
        return Some(Eval::draw());
    }
    // In check at fifty moves without capture or pawn move no move can be made: a draw.
    if !checkers.is_empty() && position.state.half_move_clock >= 50 {
        return Some(Eval::draw());
    }
    // Only captures and promotions when not in check.
    let mut moves = if checkers.is_empty() { noisy_moves(&all_moves, position) } else { all_moves };
    order_moves(&mut moves, position, None);
    assert(moves@ == q_moves(*move_gen, *position)) by {
        reveal(q_moves);
    }
    let mut i: usize = 0;
    while i < moves.len()
        invariant
            move_gen.wf(),
            in_range(window.0 as int),
            in_range(beta.0 as int),
            in_range(best_eval.0 as int),
            curr_depth < 255,
            stats.positions_processed >= old(stats).positions_processed,
            stats.max_depth_reached >= old(stats).max_depth_reached,
            has_king(*position),
            checkers.0 == move_gen.all_pieces.checkers_word(*position),
            sp == stand_pat(*move_gen, *position),
            move_gen.all_pieces.moves_spec(*position).len() > 0,
            checkers.0 == 0 ==> best_eval.0 >= sp && sp < beta.0 && curr_depth < 3 * max_depth,
            i <= moves.len(),
            moves@ == q_moves(*move_gen, *position),
            target == spec_quiescence(*move_gen, *position, curr_depth as int, max_depth as int, alpha.0 as int, beta.0 as int),
            quiescence_loop(*move_gen, *position, curr_depth as int, max_depth as int, moves@, i as int, window.0 as int, beta.0 as int, best_eval.0 as int) == target,
        decreases moves.len() - i,
    {
        let mve = moves[i];
        let ghost gi = i as int;
        let ghost a_i = window.0 as int;
        let ghost b_i = best_eval.0 as int;
        proof {
            assert(moves@[gi] == mve);
            assert(q_legal(*position, mve) == position.make_move_ok(mve)) by {
                reveal(q_legal);
            }
            assert(q_after(*position, mve) == position.spec_make_move(mve)) by {
                reveal(q_after);
            }
        }
        i += 1;
        if !position.can_make_move(mve) {
            continue;
        }
        let mut move_position = *position;
        move_position.make_move(mve);
        let child = quiescence_search(
            &move_position,
            params,
            curr_depth + 1,
            max_depth,
            stats,
            start_time,
            beta.flip(),
            window.flip(),
            move_gen,
            position_eval,
            terminate,
        );
        let move_eval = match child {
            Some(e) => e.flip(),
            None => {
                return None;
            },
        };
        proof {
            let ch = spec_quiescence(*move_gen, move_position, curr_depth + 1, max_depth as int, spec_flip(beta.0 as int), spec_flip(a_i));
            assert(move_eval.0 == spec_flip(ch));
            assert(quiescence_loop(*move_gen, *position, curr_depth as int, max_depth as int, moves@, gi, a_i, beta.0 as int, b_i)
                == if spec_flip(ch) >= beta.0 {
                    spec_flip(ch)
                } else {
                    quiescence_loop(*move_gen, *position, curr_depth as int, max_depth as int, moves@, gi + 1, max_score(a_i, spec_flip(ch)), beta.0 as int, max_score(b_i, spec_flip(ch)))
                });
        }
        if move_eval.0 >= beta.0 {
            return Some(move_eval);
        }
        if move_eval.0 > best_eval.0 {
            best_eval = move_eval;
        }
        if move_eval.0 > window.0 {
            window = move_eval;
        }
    }
    assert(quiescence_loop(*move_gen, *position, curr_depth as int, max_depth as int, moves@, i as int, window.0 as int, beta.0 as int, best_eval.0 as int)
        == best_eval.0);
    Some(best_eval)
}

} // verus!
