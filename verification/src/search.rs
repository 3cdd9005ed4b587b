//! Searching for the best move: iterative deepening over an alpha-beta search with a
//! quiescence search at the leaves, a transposition table and capture ordering.
use vstd::prelude::*;

use std::sync::atomic::AtomicBool;
use std::time::Instant;

use crate::evaluation::{in_range, spec_evaluate, spec_flip, spec_mate_in, Eval, PositionEvaluator, MATE_BASE};
use crate::move_gen::MoveGen;
use crate::perft::has_king;
use crate::position::{Move, Piece, Position, Side};
use crate::transposition_table::{slot_of, EvalType, TranspositionTable};

pub use crate::quiescence::quiescence_search;

verus! {

/// `std::time::Instant`, a moment of a monotonic clock.
#[verifier::external_type_specification]
#[verifier::external_body]
pub struct ExInstant(Instant);

/// `Instant::now` from std: the current moment. Nothing is known of it.
#[verifier::external_body]
pub(crate) fn now() -> (r: Instant) {
    Instant::now()
}

/// `Instant::elapsed` from std, in whole milliseconds (at most the largest word): the time
/// since the moment. It depends on the clock; nothing is known of it.
#[verifier::external_body]
pub(crate) fn elapsed_ms(start: &Instant) -> (r: u64) {
    u64::try_from(start.elapsed().as_millis()).unwrap_or(u64::MAX)
}

/// Whether the search has been asked to stop: the flag's value, read without ordering.
pub(crate) fn is_terminated(terminate: &AtomicBool) -> bool {
    terminate.load(std::sync::atomic::Ordering::Relaxed)
}

/// What a search is asked to do; times are in milliseconds.
#[derive(Clone, Debug, PartialEq, Eq)]
pub struct SearchParams {
    pub search_moves: Option<Vec<Move>>,
    pub ponder: bool,
    pub white_time: Option<u64>,
    pub black_time: Option<u64>,
    pub white_inc: Option<u64>,
    pub black_inc: Option<u64>,
    pub moves_to_go: Option<u16>,
    pub max_depth: Option<u8>,
    pub max_nodes: Option<u64>,
    pub mate: Option<u8>,
    pub move_time: Option<u64>,
    pub infinite: bool,
}

impl SearchParams {
    /// Nothing asked: no limits, no moves singled out.
    pub fn new() -> (r: SearchParams)
        ensures
            r.search_moves is None && !r.ponder && r.white_time is None && r.black_time is None,
            r.white_inc is None && r.black_inc is None && r.moves_to_go is None && r.max_depth is None,
            r.max_nodes is None && r.mate is None && r.move_time is None && !r.infinite,
    {
        SearchParams {
            search_moves: None,
            ponder: false,
            white_time: None,
            black_time: None,
            white_inc: None,
            black_inc: None,
            moves_to_go: None,
            max_depth: None,
            max_nodes: None,
            mate: None,
            move_time: None,
            infinite: false,
        }
    }
}

/// What a search found besides the best move.
#[derive(Clone, Debug, PartialEq, Eq)]
pub struct SearchResultInfo {
    pub positions_processed: u64,
    pub time_elapsed: u64,
    pub move_evals: Vec<(Move, Eval)>,
}

/// Why a search was refused.
#[derive(Clone, Debug, PartialEq, Eq)]
pub enum SearchError {
    /// Both a depth and a mate depth were given.
    DepthAndMatePassed(u8, u8),
    /// The search log file could not be opened; its path.
    OpenSearchLogsFile(String),
}

/// The soft and hard time limits for a move, from the time left, the increment and the
/// moves to go: a twentieth of the time kept back, the rest shared over the moves to go
/// (forty when not given) plus the increment, and twice that as the hard limit.
pub open spec fn spec_time_to_use(time_left: int, inc: int, moves_to_go: int) -> (int, int) {
    let usable = time_left - time_left / 20;
    let soft = usable / moves_to_go + inc;
    (soft, soft * 2)
}

/// The limits of `spec_time_to_use` for a clock, an optional increment (none counts as
/// zero) and optional moves to go (forty when not given), each held at `u64::MAX`.
pub open spec fn spec_limits(time_left: u64, maybe_time_inc: Option<u64>, maybe_moves_to_go: Option<u16>) -> (u64, u64) {
    let inc = match maybe_time_inc { Some(i) => i as int, None => 0 };
    let mtg = match maybe_moves_to_go { Some(m) => m as int, None => 40 };
    let soft = spec_time_to_use(time_left as int, inc, mtg).0;
    let s = if soft <= u64::MAX { soft } else { u64::MAX as int };
    (s as u64, (if 2 * s <= u64::MAX { 2 * s } else { u64::MAX as int }) as u64)
}

/// The clock and increment of a side.
pub open spec fn side_clock(params: SearchParams, side: Side) -> (Option<u64>, Option<u64>) {
    match side {
        Side::White => (params.white_time, params.white_inc),
        Side::Black => (params.black_time, params.black_inc),
    }
}

/// The soft and hard time limits for one move.
pub fn calc_time_to_use(time_left: u64, maybe_time_inc: Option<u64>, maybe_moves_to_go: Option<u16>) -> (r: (u64, u64))
    requires
        maybe_moves_to_go != Some(0u16),
    ensures
        r == spec_limits(time_left, maybe_time_inc, maybe_moves_to_go),
{
    let time_inc = match maybe_time_inc {
        Some(i) => i,
        None => 0,
    };
    let usable_time = time_left - time_left / 20;
    let moves_to_go: u64 = match maybe_moves_to_go {
        Some(m) => m as u64,
        None => 40,
    };
    let soft_limit = (usable_time / moves_to_go).saturating_add(time_inc);
    let hard_limit = if soft_limit > u64::MAX / 2 { u64::MAX } else { soft_limit * 2 };
    (soft_limit, hard_limit)
}

/// The soft and hard time limits of the side to move; the move time, when given, is the
/// hard limit.
pub fn get_time_to_use(params: &SearchParams, side_to_move: Side) -> (r: (Option<u64>, Option<u64>))
    requires
        side_clock(*params, side_to_move).0 is Some ==> params.moves_to_go != Some(0u16),
    ensures
        ({
            let (clock, inc) = side_clock(*params, side_to_move);
            match clock {
                Some(t) => {
                    &&& r.0 == Some(spec_limits(t, inc, params.moves_to_go).0)
                    &&& r.1 == match params.move_time {
                        Some(mt) => Some(mt),
                        None => Some(spec_limits(t, inc, params.moves_to_go).1),
                    }
                },
                None => r.0 is None && r.1 == params.move_time,
            }
        }),
{
    let (soft, hard) = match side_to_move {
        Side::White => match params.white_time {
            Some(white_time) => {
                let (soft, hard) = calc_time_to_use(white_time, params.white_inc, params.moves_to_go);
                (Some(soft), Some(hard))
            },
            None => (None, None),
        },
        Side::Black => match params.black_time {
            Some(black_time) => {
                let (soft, hard) = calc_time_to_use(black_time, params.black_inc, params.moves_to_go);
                (Some(soft), Some(hard))
            },
            None => (None, None),
        },
    };
    let hard = match params.move_time {
        Some(move_time) => Some(move_time),
        None => hard,
    };
    (soft, hard)
}

/// The most valuable victim, least valuable attacker score of a capture: ten times the
/// victim's number plus five less the attacker's.
pub open spec fn spec_mvv_lva(attacker: Piece, victim: Piece) -> int {
    victim.idx() * 10 + (5 - attacker.idx())
}

/// The capture score of a move: its most valuable victim, least valuable attacker score,
/// or 0 when it does not take a piece of the side not to move.
pub fn get_mvv_lva_value(mve: Move, position: &Position) -> (r: i64)
    ensures
        r == match (position.piece_on(mve.src, position.state.to_move), position.piece_on(mve.dest, position.state.to_move.opp())) {
            (Some(a), Some(v)) => spec_mvv_lva(a, v),
            _ => 0,
        },
{
    let attacker = position.is_piece_at(mve.src, position.state.to_move);
    let victim = position.is_piece_at(mve.dest, position.state.to_move.opposite_side());
    match (attacker, victim) {
        (Some(a), Some(v)) => (v.index() * 10 + (5 - a.index())) as i64,
        _ => 0,
    }
}

/// The sort key of a move: the best move the table remembers first, then captures by
/// their score, then the rest.
pub open spec fn spec_sort_key(p: Position, m: Move, tt_best: Option<Move>) -> int {
    if tt_best == Some(m) {
        i64::MAX as int
    } else if p.sides.of(p.state.to_move.opp()).has(m.dest) {
        match (p.piece_on(m.src, p.state.to_move), p.piece_on(m.dest, p.state.to_move.opp())) {
            (Some(a), Some(v)) => spec_mvv_lva(a, v),
            _ => 0,
        }
    } else {
        0
    }
}

/// The sort key of a move.
fn get_move_sort_key(mve: Move, position: &Position, maybe_tt_best_move: Option<Move>) -> (r: i64)
    ensures
        r == spec_sort_key(*position, mve, maybe_tt_best_move),
{
    if let Some(tt_best_move) = maybe_tt_best_move {
        if mve == tt_best_move {
            return i64::MAX;
        }
    }
    if position.is_capture(&mve) {
        return get_mvv_lva_value(mve, position);
    }
    0
}

/// Swapping two elements keeps the multiset of a sequence.
proof fn lemma_swap_multiset(s: Seq<Move>, i: int, k: int)
    requires
        0 <= i < s.len(),
        0 <= k < s.len(),
    ensures
        s.update(i, s[k]).update(k, s[i]).to_multiset() == s.to_multiset(),
{
    broadcast use {vstd::multiset::group_multiset_axioms, vstd::multiset::group_multiset_properties};

    let t = s.update(i, s[k]);
    vstd::seq_lib::to_multiset_update(s, i, s[k]);
    vstd::seq_lib::to_multiset_update(t, k, s[i]);
    if i == k {
        assert(t.update(k, s[i]) =~= s);
    } else {
        assert(t[k] == s[k]);
        assert(s.contains(s[i]));
        assert(s.contains(s[k]));
        vstd::seq_lib::to_multiset_contains(s, s[i]);
        vstd::seq_lib::to_multiset_contains(s, s[k]);
        assert(t.update(k, s[i]).to_multiset() =~= s.to_multiset());
    }
}

/// Where insertion puts a move into `t` when it starts after the first `j` moves: it
/// passes each move before it with a lower sort key.
pub open spec fn insert_pos(p: Position, tt_best: Option<Move>, t: Seq<Move>, x: Move, j: int) -> int
    decreases j,
{
    if j > 0 && spec_sort_key(p, t[j - 1], tt_best) < spec_sort_key(p, x, tt_best) {
        insert_pos(p, tt_best, t, x, j - 1)
    } else {
        j
    }
}

/// The moves in the order insertion by descending sort key gives them: each move in turn
/// put after the moves before it with a key at least its own.
pub open spec fn sorted_moves(p: Position, tt_best: Option<Move>, s: Seq<Move>) -> Seq<Move>
    decreases s.len(),
{
    if s.len() == 0 {
        s
    } else {
        let t = sorted_moves(p, tt_best, s.drop_last());
        t.insert(insert_pos(p, tt_best, t, s.last(), t.len() as int), s.last())
    }
}

proof fn lemma_sorted_len(p: Position, tt_best: Option<Move>, s: Seq<Move>)
    ensures
        sorted_moves(p, tt_best, s).len() == s.len(),
    decreases s.len(),
{
    if s.len() > 0 {
        lemma_sorted_len(p, tt_best, s.drop_last());
        lemma_insert_pos_range(p, tt_best, sorted_moves(p, tt_best, s.drop_last()), s.last(), s.len() - 1);
    }
}

proof fn lemma_insert_pos_range(p: Position, tt_best: Option<Move>, t: Seq<Move>, x: Move, j: int)
    requires
        0 <= j,
    ensures
        0 <= insert_pos(p, tt_best, t, x, j) <= j,
    decreases j,
{
    if j > 0 && spec_sort_key(p, t[j - 1], tt_best) < spec_sort_key(p, x, tt_best) {
        lemma_insert_pos_range(p, tt_best, t, x, j - 1);
    }
}

/// Orders the moves by descending sort key, keeping the order of moves with equal keys.
pub fn order_moves(moves: &mut Vec<Move>, position: &Position, maybe_tt_best_move: Option<Move>)
    ensures
        final(moves)@ == sorted_moves(*position, maybe_tt_best_move, old(moves)@),
        final(moves)@.to_multiset() == old(moves)@.to_multiset(),
        forall|i: int, j: int| 0 <= i < j < final(moves)@.len() ==> spec_sort_key(*position, final(moves)@[i], maybe_tt_best_move)
            >= spec_sort_key(*position, final(moves)@[j], maybe_tt_best_move),
{
    broadcast use vstd::seq_lib::group_seq_properties;

    let n = moves.len();
    let mut i: usize = 1;
    proof {
        if n > 0 {
            let s1 = old(moves)@.take(1);
            assert(s1.drop_last() =~= Seq::<Move>::empty());
            assert(sorted_moves(*position, maybe_tt_best_move, s1.drop_last()).len() == 0);
            assert(moves@.take(1) =~= Seq::<Move>::empty().insert(0, s1.last()));
        }
    }
    while i < n
        invariant
            n == moves.len(),
            1 <= i || n == 0,
            i <= n || n == 0,
            moves@.to_multiset() == old(moves)@.to_multiset(),
            forall|a: int, b: int| 0 <= a < b < i && b < moves@.len() ==> spec_sort_key(*position, moves@[a], maybe_tt_best_move)
                >= spec_sort_key(*position, moves@[b], maybe_tt_best_move),
            n > 0 ==> moves@.take(i as int) == sorted_moves(*position, maybe_tt_best_move, old(moves)@.take(i as int)),
            moves@.skip(i as int) == old(moves)@.skip(i as int),
            old(moves)@.len() == n,
        decreases n - i,
    {
        let ghost t = moves@.take(i as int);
        let ghost x = moves@[i as int];
        proof {
            assert(old(moves)@.take(i + 1).drop_last() =~= old(moves)@.take(i as int));
            assert(old(moves)@[i as int] == old(moves)@.skip(i as int)[0]);
            assert(old(moves)@.take(i + 1).last() == x);
            lemma_sorted_len(*position, maybe_tt_best_move, old(moves)@.take(i as int));
        }
        let mut j: usize = i;
        proof {
            assert(moves@.skip(i + 1) =~= moves@.skip(i as int).skip(1));
            assert(old(moves)@.skip(i + 1) =~= old(moves)@.skip(i as int).skip(1));
            assert(t.take(i as int) =~= t);
            assert(t.skip(i as int) =~= Seq::<Move>::empty());
            assert(moves@.take(i + 1) =~= t.push(x));
        }
        let key = get_move_sort_key(moves[i], position, maybe_tt_best_move);
        while j > 0 && get_move_sort_key(moves[j - 1], position, maybe_tt_best_move) < key
            invariant
                n == moves.len(),
                0 <= j <= i < n,
                key == spec_sort_key(*position, moves@[j as int], maybe_tt_best_move),
                moves@.to_multiset() == old(moves)@.to_multiset(),
                forall|a: int, b: int| 0 <= a < b <= i && a != j && b != j ==> spec_sort_key(*position, moves@[a], maybe_tt_best_move)
                    >= spec_sort_key(*position, moves@[b], maybe_tt_best_move),
                forall|b: int| j < b <= i ==> spec_sort_key(*position, moves@[b], maybe_tt_best_move) < key,
                j > 0 && j < i ==> spec_sort_key(*position, moves@[j - 1], maybe_tt_best_move) >= spec_sort_key(
                    *position,
                    moves@[j + 1],
                    maybe_tt_best_move,
                ),
                t.len() == i,
                moves@.take(i + 1) == t.take(j as int).push(x) + t.skip(j as int),
                moves@.skip(i + 1) == old(moves)@.skip(i + 1),
                insert_pos(*position, maybe_tt_best_move, t, x, i as int) == insert_pos(*position, maybe_tt_best_move, t, x, j as int),
                key == spec_sort_key(*position, x, maybe_tt_best_move),
            decreases j,
        {
            let ghost before = moves@;
            let a = moves[j - 1];
            let b = moves[j];
            moves.set(j - 1, b);
            moves.set(j, a);
            proof {
                assert(moves@ =~= before.update(j - 1, b).update(j as int, a));
                lemma_swap_multiset(before, j - 1, j as int);
                assert((t.take(j as int).push(x) + t.skip(j as int))[j - 1] == t[j - 1]);
                assert(before.take(i + 1)[j - 1] == before[j - 1]);
                assert(before.take(i + 1)[j as int] == before[j as int]);
                assert((t.take(j as int).push(x) + t.skip(j as int))[j as int] == x);
                assert(before[j as int] == x);
                assert(before[j - 1] == t[j - 1]);
                assert forall|k: int| 0 <= k < i + 1 implies #[trigger] moves@.take(i + 1)[k] == (t.take(j - 1).push(x) + t.skip(j - 1))[k] by {
                    assert(before.take(i + 1)[k] == (t.take(j as int).push(x) + t.skip(j as int))[k]);
                    if k > j {
                        assert(before[k] == t[k - 1]);
                    } else if k < j - 1 {
                        assert(before[k] == t[k]);
                    }
                }
                assert(moves@.take(i + 1) =~= t.take(j - 1).push(x) + t.skip(j - 1));
                assert(moves@.skip(i + 1) =~= before.skip(i + 1));
            }
            j -= 1;
        }
        proof {
            assert(!(j > 0 && spec_sort_key(*position, t[j - 1], maybe_tt_best_move) < key)) by {
                if j > 0 {
                    assert((t.take(j as int).push(x) + t.skip(j as int))[j - 1] == t[j - 1]);
                    assert(moves@.take(i + 1)[j - 1] == moves@[j - 1]);
                }
            }
            assert(t.take(j as int).push(x) + t.skip(j as int) =~= t.insert(j as int, x));
            assert(moves@.take(i + 1) == sorted_moves(*position, maybe_tt_best_move, old(moves)@.take(i + 1)));
            assert(moves@.skip(i + 1) == old(moves)@.skip(i + 1));
        }
        i += 1;
    }
    proof {
        if n > 0 {
            assert(moves@.take(n as int) =~= moves@);
            assert(old(moves)@.take(n as int) =~= old(moves)@);
        } else {
            assert(moves@ =~= old(moves)@);
        }
    }
}

/// The largest of a score and the worst score, kept within the range of scores.
pub(crate) fn clamp_eval(v: i64) -> (r: Eval)
    ensures
        r.0 == if v < -MATE_BASE { -MATE_BASE as int } else if v > MATE_BASE { MATE_BASE as int } else { v as int },
        in_range(r.0 as int),
{
    if v < -30000 {
        Eval(-30000)
    } else if v > 30000 {
        Eval(30000)
    } else {
        Eval(v as i32)
    }
}

/// The counters a search keeps: the deepest ply reached and the positions looked at.
pub struct SearchStats {
    pub max_depth_reached: u8,
    pub positions_processed: u64,
}

/// A score held within the range of scores.
pub open spec fn clamped(v: int) -> int {
    if v < -MATE_BASE { -MATE_BASE as int } else if v > MATE_BASE { MATE_BASE as int } else { v }
}

/// The score of standing pat: the position's evaluation, held within the range of scores.
pub open spec fn stand_pat(g: MoveGen, p: Position) -> int {
    clamped(spec_evaluate(g, p))
}

/// The score of a position whose side to move has no move: mated in check, else a draw.
pub open spec fn no_move_score(g: MoveGen, p: Position) -> int {
    if g.all_pieces.checkers_word(p) != 0 { spec_mate_in(0) } else { 0 }
}

/// The table holds an entry for the position: the entry in its slot is not empty and
/// has its hash.
pub open spec fn table_holds(t: TranspositionTable, p: Position) -> bool {
    let e = t.entries@[slot_of(p.zobrist_hash.0, t.entries.len()) as int];
    !e.spec_is_empty() && e.hash == p.zobrist_hash
}

/// The alpha-beta search of a position to `max_depth`, at depth `curr_depth`: a stored
/// evaluation deep enough that decides the window is taken from the table; the first
/// move is searched with the full window, the others with a null window and again with
/// the full one when they fall inside it; the best evaluation is stored in the table.
///
/// Gives `None` when the search is stopped: asked to, out of nodes, out of time, or too
/// deep.
#[verifier::rlimit(40)]
pub fn search_helper(
    position: &Position,
    params: &SearchParams,
    curr_depth: u8,
    max_depth: u8,
    stats: &mut SearchStats,
    start_time: &Instant,
    alpha: Eval,
    beta: Eval,
    move_gen: &MoveGen,
    position_eval: &PositionEvaluator,
    transposition_table: &mut TranspositionTable,
    terminate: &AtomicBool,
) -> (r: Option<Eval>)
    requires
        move_gen.wf(),
        old(transposition_table).wf(),
        in_range(alpha.0 as int),
        in_range(beta.0 as int),
        curr_depth <= max_depth,
    ensures
        final(transposition_table).wf(),
        final(transposition_table).entries.len() == old(transposition_table).entries.len(),
        r matches Some(e) ==> in_range(e.0 as int),
        final(stats).positions_processed >= old(stats).positions_processed,
        final(stats).max_depth_reached >= old(stats).max_depth_reached,
        params.max_nodes == Some(old(stats).positions_processed) ==> r is None,
        r matches Some(e) ==> (move_gen.all_pieces.moves_spec(*position).len() == 0 && (curr_depth == max_depth
            || (!table_holds(*old(transposition_table), *position) && position.state.half_move_clock < 50)) ==> e.0
            == no_move_score(*move_gen, *position)),
        r matches Some(e) ==> (curr_depth < max_depth && has_king(*position) && position.state.half_move_clock >= 50 ==> e.0 == 0),
    decreases max_depth - curr_depth,
{
    let mut alpha = alpha;
    // Stopped when asked to.
    if is_terminated(terminate) {
        return None;
    }
    // Stopped at the node limit.
    if let Some(max_nodes) = params.max_nodes {
        if stats.positions_processed == max_nodes {
            return None;
        }
    }
    // Stopped when out of time.
    if let Some(move_time) = params.move_time {
        if elapsed_ms(start_time) >= move_time {
            return None;
        }
    }
    stats.positions_processed = stats.positions_processed.saturating_add(1);
    if curr_depth > stats.max_depth_reached {
        stats.max_depth_reached = curr_depth;
    }
    // At the last depth the quiescence search goes on.
    if curr_depth == max_depth {
        return quiescence_search(position, params, curr_depth, max_depth, stats, start_time, alpha, beta, move_gen, position_eval, terminate);
    }
    if position.pieces.get(Piece::King).get(position.state.to_move).is_empty() {
        return None;
    }
    // Drawn at fifty moves without capture or pawn move.
    if position.state.half_move_clock >= 50 {
        return Some(Eval::draw());
    }
    let maybe_tt_best_move = match transposition_table.get(position) {
        Some(tt_entry) => {
            let e = *tt_entry;
            if e.depth() >= max_depth - curr_depth && -30000 <= e.eval.0 && e.eval.0 <= 30000 {
                let eval_type = e.eval_type();
                if eval_type == EvalType::Exact || (eval_type == EvalType::LowerBound && e.eval.0 >= beta.0) || (eval_type
                    == EvalType::UpperBound && e.eval.0 <= alpha.0) {
                    return Some(e.eval);
                }
            }
            Some(e.best_move)
        },
        None => None,
    };
    let mut moves = move_gen.all_pieces.gen_moves(position);
    if moves.len() == 0 {
        if !move_gen.gen_checkers(position).is_empty() {
            return Some(Eval::min_eval());
        }
        return Some(Eval::draw());
    }
    let ghost unordered = moves@;
    order_moves(&mut moves, position, maybe_tt_best_move);
    proof {
        vstd::seq_lib::to_multiset_len(moves@);
        vstd::seq_lib::to_multiset_len(unordered);
    }
    let mut best_eval = Eval::min_eval();
    let mut best_move = moves[0];
    let original_alpha = alpha;
    let mut idx: usize = 0;
    while idx < moves.len()
        invariant
            move_gen.wf(),
            transposition_table.wf(),
            transposition_table.entries.len() == old(transposition_table).entries.len(),
            in_range(alpha.0 as int),
            in_range(beta.0 as int),
            in_range(best_eval.0 as int),
            curr_depth < max_depth,
            stats.positions_processed >= old(stats).positions_processed,
            stats.max_depth_reached >= old(stats).max_depth_reached,
        decreases moves.len() - idx,
    {
        let mve = moves[idx];
        let first = idx == 0;
        idx += 1;
        if !position.can_make_move(mve) {
            continue;
        }
        let mut move_position = *position;
        move_position.make_move(mve);
        let got_eval = if first {
            match search_helper(&move_position, params, curr_depth + 1, max_depth, stats, start_time, beta.flip(), alpha.flip(), move_gen, position_eval, transposition_table, terminate) {
                Some(e) => e.flip(),
                None => {
                    return None;
                },
            }
        } else {
            let narrow_alpha = clamp_eval(alpha.flip().0 as i64 - 1);
            let got_eval = match search_helper(&move_position, params, curr_depth + 1, max_depth, stats, start_time, narrow_alpha, alpha.flip(), move_gen, position_eval, transposition_table, terminate) {
                Some(e) => e.flip(),
                None => {
                    return None;
                },
            };
            if alpha.0 < got_eval.0 && got_eval.0 < beta.0 {
                match search_helper(&move_position, params, curr_depth + 1, max_depth, stats, start_time, beta.flip(), alpha.flip(), move_gen, position_eval, transposition_table, terminate) {
                    Some(e) => e.flip(),
                    None => {
                        return None;
                    },
                }
            } else {
                got_eval
            }
        };
        if got_eval.0 > best_eval.0 {
            best_eval = got_eval;
            best_move = mve;
            if got_eval.0 > alpha.0 {
                alpha = got_eval;
            }
        }
        if alpha.0 >= beta.0 {
            break;
        }
    }
    let tt_eval_type = if best_eval.0 >= beta.0 {
        EvalType::LowerBound
    } else if best_eval.0 <= original_alpha.0 {
        EvalType::UpperBound
    } else {
        EvalType::Exact
    };
    let depth = max_depth - curr_depth;
    if depth < 64 {
        transposition_table.store(position, best_eval, tt_eval_type, best_move, depth);
    }
    Some(best_eval)
}

/// A move of the root with the position it leads to and its latest evaluation.
#[derive(Clone, Copy, Debug, PartialEq, Eq, Structural)]
pub struct RootMove {
    pub mve: Move,
    pub position: Position,
    pub val: Option<Eval>,
}

/// The sort key of a root move: its evaluation, the lowest word when it has none.
pub open spec fn root_key(e: RootMove) -> int {
    match e.val {
        Some(v) => v.0 as int,
        None => i32::MIN as int,
    }
}

/// Swapping two elements keeps the multiset of a sequence.
proof fn lemma_swap_multiset_root(s: Seq<RootMove>, i: int, k: int)
    requires
        0 <= i < s.len(),
        0 <= k < s.len(),
    ensures
        s.update(i, s[k]).update(k, s[i]).to_multiset() == s.to_multiset(),
{
    broadcast use {vstd::multiset::group_multiset_axioms, vstd::multiset::group_multiset_properties};

    let t = s.update(i, s[k]);
    vstd::seq_lib::to_multiset_update(s, i, s[k]);
    vstd::seq_lib::to_multiset_update(t, k, s[i]);
    if i == k {
        assert(t.update(k, s[i]) =~= s);
    } else {
        assert(t[k] == s[k]);
        assert(s.contains(s[i]));
        assert(s.contains(s[k]));
        vstd::seq_lib::to_multiset_contains(s, s[i]);
        vstd::seq_lib::to_multiset_contains(s, s[k]);
        assert(t.update(k, s[i]).to_multiset() =~= s.to_multiset());
    }
}

/// The sort key of a root move.
fn root_key_of(e: &RootMove) -> (r: i32)
    ensures
        r == root_key(*e),
{
    match e.val {
        Some(v) => v.0,
        None => i32::MIN,
    }
}

/// Orders the root moves by descending evaluation, keeping the order of equal ones.
fn sort_root_moves(entries: &mut Vec<RootMove>)
    ensures
        final(entries)@.to_multiset() == old(entries)@.to_multiset(),
        forall|i: int, j: int| 0 <= i < j < final(entries)@.len() ==> root_key(final(entries)@[i]) >= root_key(final(entries)@[j]),
{
    let n = entries.len();
    let mut i: usize = 1;
    while i < n
        invariant
            n == entries.len(),
            1 <= i || n == 0,
            i <= n || n == 0,
            entries@.to_multiset() == old(entries)@.to_multiset(),
            forall|a: int, b: int| 0 <= a < b < i && b < entries@.len() ==> root_key(entries@[a]) >= root_key(entries@[b]),
        decreases n - i,
    {
        let mut j: usize = i;
        let key = root_key_of(&entries[i]);
        while j > 0 && root_key_of(&entries[j - 1]) < key
            invariant
                n == entries.len(),
                0 <= j <= i < n,
                key == root_key(entries@[j as int]),
                entries@.to_multiset() == old(entries)@.to_multiset(),
                forall|a: int, b: int| 0 <= a < b <= i && a != j && b != j ==> root_key(entries@[a]) >= root_key(entries@[b]),
                forall|b: int| j < b <= i ==> root_key(entries@[b]) < key,
                j > 0 && j < i ==> root_key(entries@[j - 1]) >= root_key(entries@[j + 1]),
            decreases j,
        {
            let ghost before = entries@;
            let a = entries[j - 1];
            let b = entries[j];
            entries.set(j - 1, b);
            entries.set(j, a);
            proof {
                assert(entries@ =~= before.update(j - 1, b).update(j as int, a));
                lemma_swap_multiset_root(before, j - 1, j as int);
            }
            j -= 1;
        }
        i += 1;
    }
}

/// The move is in the list.
fn contains_move(v: &Vec<Move>, m: Move) -> (r: bool)
    ensures
        r == v@.contains(m),
{
    let mut i: usize = 0;
    while i < v.len()
        invariant
            i <= v.len(),
            forall|k: int| 0 <= k < i ==> v@[k] != m,
        decreases v.len() - i,
    {
        if v[i] == m {
            return true;
        }
        i += 1;
    }
    false
}

/// A root move the search may answer: generated, allowed by the search moves, able to
/// be made, with the position it leads to.
pub open spec fn root_ok(g: MoveGen, p: Position, params: SearchParams, e: RootMove) -> bool {
    &&& g.all_pieces.moves_spec(p).contains(e.mve)
    &&& (params.search_moves matches Some(sm) ==> sm@.contains(e.mve))
    &&& p.make_move_ok(e.mve)
    &&& e.position == p.spec_make_move(e.mve)
    &&& (e.val matches Some(v) ==> in_range(v.0 as int))
}

/// The evaluations are in descending order.
pub open spec fn evals_descending(v: Seq<(Move, Eval)>) -> bool {
    forall|i: int, j: int| 0 <= i < j < v.len() ==> v[i].1.0 >= v[j].1.0
}

/// A wider lower bound of an aspiration window: minus its square, or the worst score when
/// that is not lower.
fn widen_alpha(alpha: Eval) -> (r: Eval)
    requires
        in_range(alpha.0 as int),
        alpha.0 > -30000,
    ensures
        in_range(r.0 as int),
        r.0 < alpha.0,
{
    let sq = alpha.0.checked_mul(alpha.0);
    let cand = match sq {
        Some(v) => clamp_eval(-(v as i64)),
        None => Eval::min_eval(),
    };
    if cand.0 < alpha.0 { cand } else { Eval::min_eval() }
}

/// A wider upper bound of an aspiration window: its square, or the best score when that
/// is not higher.
fn widen_beta(beta: Eval) -> (r: Eval)
    requires
        in_range(beta.0 as int),
        beta.0 < 30000,
    ensures
        in_range(r.0 as int),
        r.0 > beta.0,
{
    let sq = beta.0.checked_mul(beta.0);
    let cand = match sq {
        Some(v) => clamp_eval(v as i64),
        None => Eval::max_eval(),
    };
    if cand.0 > beta.0 { cand } else { Eval::max_eval() }
}

/// Searches the position for its best move by iterative deepening: each depth searches
/// every root move, with an aspiration window around its last evaluation from depth four
/// on, widened until the evaluation falls inside; the moves are then ordered by their
/// evaluations and the best taken. The search ends at the depth (twenty when none is
/// given, the mate depth when that is), when stopped, or when the next depth would pass
/// the soft time limit.
#[verifier::rlimit(40)]
pub fn search(
    position: &Position,
    params: &SearchParams,
    move_gen: &MoveGen,
    position_eval: &PositionEvaluator,
    transposition_table: &mut TranspositionTable,
    terminate: &AtomicBool,
) -> (r: Result<(Option<Move>, SearchResultInfo), SearchError>)
    requires
        move_gen.wf(),
        old(transposition_table).wf(),
        has_king(*position),
        side_clock(*params, position.state.to_move).0 is Some ==> params.moves_to_go != Some(0u16),
    ensures
        final(transposition_table).wf(),
        r is Err == (params.max_depth is Some && params.mate is Some),
        r is Err ==> *final(transposition_table) == *old(transposition_table),
        r matches Ok((best, info)) ==> {
            &&& evals_descending(info.move_evals@)
            &&& info.move_evals.len() > 0 ==> best == Some(info.move_evals@[0].0)
        },
        r matches Err(e) ==> e == SearchError::DepthAndMatePassed(params.max_depth.unwrap(), params.mate.unwrap()),
        r matches Ok((best, _)) ==> (best matches Some(m) ==> {
            &&& move_gen.all_pieces.moves_spec(*position).contains(m)
            &&& (params.search_moves matches Some(sm) ==> sm@.contains(m))
            &&& position.make_move_ok(m)
        }),
        r matches Ok((_, info)) ==> forall|k: int| 0 <= k < info.move_evals.len() ==> {
            let (m, _) = #[trigger] info.move_evals@[k];
            &&& move_gen.all_pieces.moves_spec(*position).contains(m)
            &&& (params.search_moves matches Some(sm) ==> sm@.contains(m))
            &&& position.make_move_ok(m)
        },
{
    broadcast use vstd::seq_lib::to_multiset_contains;

    let max_depth: u8 = match (params.max_depth, params.mate) {
        (Some(max_depth), None) => max_depth,
        (None, Some(mate)) => mate,
        (Some(max_depth), Some(mate)) => {
            return Err(SearchError::DepthAndMatePassed(max_depth, mate));
        },
        (None, None) => 20,
    };
    let start = now();
    let (maybe_soft_time_limit, maybe_hard_time_limit) = get_time_to_use(params, position.state.to_move);
    let mut search_params = params.clone();
    if let Some(hard_time_limit) = maybe_hard_time_limit {
        search_params.move_time = Some(hard_time_limit);
    }
    let moves = move_gen.all_pieces.gen_moves(position);
    // The root moves: those among the search moves, each with the position it leads to.
    let mut entries: Vec<RootMove> = Vec::new();
    let mut i: usize = 0;
    while i < moves.len()
        invariant
            i <= moves.len(),
            moves@ == move_gen.all_pieces.moves_spec(*position),
            forall|k: int| 0 <= k < entries.len() ==> root_ok(*move_gen, *position, *params, #[trigger] entries@[k]),
        decreases moves.len() - i,
    {
        let mve = moves[i];
        proof {
            assert(moves@[i as int] == mve);
        }
        let allowed = match &params.search_moves {
            Some(search_moves) => contains_move(search_moves, mve),
            None => true,
        };
        if allowed && position.can_make_move(mve) {
            let mut move_position = *position;
            move_position.make_move(mve);
            entries.push(RootMove { mve, position: move_position, val: None });
        }
        i += 1;
    }
    let mut stats = SearchStats { max_depth_reached: 1, positions_processed: 0 };
    let mut best_move: Option<Move> = None;
    let mut final_move_vals: Vec<(Move, Eval)> = Vec::new();
    let mut depth: u8 = 1;
    let mut stopped = false;
    while depth <= max_depth && !stopped
        invariant
            move_gen.wf(),
            transposition_table.wf(),
            1 <= depth,
            forall|k: int| 0 <= k < entries.len() ==> root_ok(*move_gen, *position, *params, #[trigger] entries@[k]),
            best_move matches Some(m) ==> {
                &&& move_gen.all_pieces.moves_spec(*position).contains(m)
                &&& (params.search_moves matches Some(sm) ==> sm@.contains(m))
                &&& position.make_move_ok(m)
            },
            forall|k: int| 0 <= k < final_move_vals.len() ==> {
                let (m, _) = #[trigger] final_move_vals@[k];
                &&& move_gen.all_pieces.moves_spec(*position).contains(m)
                &&& (params.search_moves matches Some(sm) ==> sm@.contains(m))
                &&& position.make_move_ok(m)
            },
            evals_descending(final_move_vals@),
            final_move_vals.len() > 0 ==> best_move == Some(final_move_vals@[0].0),
        decreases 256 - depth, if stopped { 0int } else { 1int },
    {
        let iteration_start_time = now();
        stats.max_depth_reached = 1;
        let mut k: usize = 0;
        while k < entries.len()
            invariant
                move_gen.wf(),
                transposition_table.wf(),
                1 <= depth,
                forall|j: int| 0 <= j < entries.len() ==> root_ok(*move_gen, *position, *params, #[trigger] entries@[j]),
            decreases entries.len() - k,
        {
            let entry = entries[k];
            let (mut alpha, mut beta) = match entry.val {
                Some(prev_move_val) => {
                    if depth >= 4 {
                        (clamp_eval(prev_move_val.0 as i64 - 50), clamp_eval(prev_move_val.0 as i64 + 50))
                    } else {
                        (Eval::min_eval(), Eval::max_eval())
                    }
                },
                None => (Eval::min_eval(), Eval::max_eval()),
            };
            let mut searched: Option<Eval> = None;
            loop
                invariant
                    move_gen.wf(),
                    transposition_table.wf(),
                    in_range(alpha.0 as int),
                    in_range(beta.0 as int),
                    1 <= depth,
                    searched matches Some(v) ==> in_range(v.0 as int),
                decreases (alpha.0 as int + 30000) + (30000 - beta.0 as int),
            {
                let maybe_move_eval = search_helper(&entry.position, &search_params, 1, depth, &mut stats, &start, alpha, beta, move_gen, position_eval, transposition_table, terminate);
                let move_eval = match maybe_move_eval {
                    Some(e) => e,
                    None => {
                        break;
                    },
                };
                if alpha.0 != -30000 && move_eval.0 <= alpha.0 {
                    alpha = widen_alpha(alpha);
                } else if beta.0 != 30000 && move_eval.0 >= beta.0 {
                    beta = widen_beta(beta);
                } else {
                    searched = Some(move_eval.flip());
                    break;
                }
            }
            match searched {
                Some(v) => {
                    entries.set(k, RootMove { val: Some(v), ..entry });
                },
                None => {
                    stopped = true;
                    break;
                },
            }
            k += 1;
        }
        if stopped {
            break;
        }
        // Order the moves by their evaluations at this depth and take the best.
        let ghost before_sort = entries@;
        sort_root_moves(&mut entries);
        proof {
            assert forall|j: int| 0 <= j < entries.len() implies root_ok(*move_gen, *position, *params, #[trigger] entries@[j]) by {
                let x = entries@[j];
                assert(entries@.contains(x));
                vstd::seq_lib::to_multiset_contains(entries@, x);
                vstd::seq_lib::to_multiset_contains(before_sort, x);
                let k = choose|k: int| 0 <= k < before_sort.len() && before_sort[k] == x;
                assert(root_ok(*move_gen, *position, *params, before_sort[k]));
            }
        }
        final_move_vals = Vec::new();
        let mut j: usize = 0;
        while j < entries.len()
            invariant
                j <= entries.len(),
                forall|k: int| 0 <= k < entries.len() ==> root_ok(*move_gen, *position, *params, #[trigger] entries@[k]),
                forall|a: int, b: int| 0 <= a < b < entries@.len() ==> root_key(entries@[a]) >= root_key(entries@[b]),
                evals_descending(final_move_vals@),
                forall|a: int, b: int| 0 <= a < final_move_vals.len() && j <= b < entries.len() ==> #[trigger] final_move_vals@[a].1.0 >= root_key(#[trigger] entries@[b]),
                final_move_vals.len() > 0 ==> entries@[0].val is Some && final_move_vals@[0].0 == entries@[0].mve,
                j > 0 && entries@[0].val is Some ==> final_move_vals.len() > 0,
                final_move_vals.len() <= j,
                forall|k: int| 0 <= k < final_move_vals.len() ==> {
                    let (m, _) = #[trigger] final_move_vals@[k];
                    &&& move_gen.all_pieces.moves_spec(*position).contains(m)
                    &&& (params.search_moves matches Some(sm) ==> sm@.contains(m))
                    &&& position.make_move_ok(m)
                },
            decreases entries.len() - j,
        {
            let e = entries[j];
            proof {
                assert(root_ok(*move_gen, *position, *params, entries@[j as int]));
                assert(root_ok(*move_gen, *position, *params, entries@[0]));
                if j > 0 && e.val is Some {
                    assert(root_key(entries@[0]) >= root_key(entries@[j as int]));
                }
            }
            if let Some(v) = e.val {
                final_move_vals.push((e.mve, v));
            }
            j += 1;
        }
        if entries.len() > 0 {
            proof {
                assert(root_ok(*move_gen, *position, *params, entries@[0]));
            }
            best_move = Some(entries[0].mve);
        }
        // Stop when the next depth would pass the soft time limit.
        if let Some(soft_time_limit) = maybe_soft_time_limit {
            let elapsed = elapsed_ms(&start);
            if elapsed.saturating_add(elapsed_ms(&iteration_start_time)) > soft_time_limit {
                break;
            }
        }
        if depth == 255 {
            break;
        }
        depth += 1;
    }
    let search_info = SearchResultInfo {
        positions_processed: stats.positions_processed,
        time_elapsed: elapsed_ms(&start),
        move_evals: final_move_vals,
    };
    Ok((best_move, search_info))
}

} // verus!
