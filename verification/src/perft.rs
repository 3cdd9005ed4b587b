//! Perft: counting the positions a move generator reaches to a given depth, to check it
//! against known counts.
use vstd::prelude::*;

use crate::move_gen::MoveGen;
use crate::bitboard::{bit_count, BitBoard, Square};
use crate::bits::bit_set;
use crate::position::{Move, Piece, Position};

verus! {

/// The side to move has a king, so that its moves can be generated.
pub open spec fn has_king(p: Position) -> bool {
    p.pieces.board(Piece::King, p.state.to_move).0 != 0
}

/// The number of positions at depth `max` below `p`, standing at depth `curr`: each
/// move that can be made leads one level down; a position without a king to move counts
/// none.
pub open spec fn perft_nodes(g: MoveGen, p: Position, curr: int, max: int) -> nat
    decreases max - curr, 1int, 0int,
{
    if curr >= max {
        1
    } else if !has_king(p) {
        0
    } else {
        moves_nodes(g, p, g.all_pieces.moves_spec(p), g.all_pieces.moves_spec(p).len() as int, curr, max)
    }
}

/// The positions below the first `n` of the moves.
pub open spec fn moves_nodes(g: MoveGen, p: Position, moves: Seq<Move>, n: int, curr: int, max: int) -> nat
    decreases max - curr, 0int, n,
{
    if n <= 0 || curr >= max {
        0
    } else {
        moves_nodes(g, p, moves, n - 1, curr, max) + if p.make_move_ok(moves[n - 1]) {
            perft_nodes(g, p.spec_make_move(moves[n - 1]), curr + 1, max)
        } else {
            0
        }
    }
}

/// A count, or the largest word when it does not fit.
pub open spec fn capped_u64(n: nat) -> u64 {
    if n <= u64::MAX { n as u64 } else { u64::MAX }
}

/// Adding capped counts with saturation caps the sum.
proof fn lemma_capped_add(a: nat, b: nat)
    ensures
        capped_u64(a + b) == if capped_u64(a) + capped_u64(b) > u64::MAX { u64::MAX } else { (capped_u64(a) + capped_u64(b)) as u64 },
{
}

/// The count below one move: the positions under the position the move leads to, or none
/// when the move cannot be made.
fn count_child(move_gen: &MoveGen, position: &Position, mve: Move, curr_depth: u64, max_depth: u64) -> (r: u64)
    requires
        move_gen.wf(),
        curr_depth < max_depth,
    ensures
        r == if position.make_move_ok(mve) {
            capped_u64(perft_nodes(*move_gen, position.spec_make_move(mve), curr_depth + 1, max_depth as int))
        } else {
            0
        },
    decreases max_depth - curr_depth, 0int,
{
    if position.can_make_move(mve) {
        let mut move_pos = *position;
        move_pos.make_move(mve);
        perft_helper(move_gen, &move_pos, curr_depth + 1, max_depth)
    } else {
        0
    }
}

/// Counts the positions at depth `max_depth` below `position`, at depth `curr_depth`.
pub fn perft_helper(move_gen: &MoveGen, position: &Position, curr_depth: u64, max_depth: u64) -> (r: u64)
    requires
        move_gen.wf(),
    ensures
        r == capped_u64(perft_nodes(*move_gen, *position, curr_depth as int, max_depth as int)),
    decreases max_depth - curr_depth, 1int,
{
    if curr_depth >= max_depth {
        return 1;
    }
    if position.pieces.get(Piece::King).get(position.state.to_move).is_empty() {
        return 0;
    }
    let moves = move_gen.all_pieces.gen_moves(position);
    let mut moves_count: u64 = 0;
    let mut i: usize = 0;
    while i < moves.len()
        invariant
            move_gen.wf(),
            curr_depth < max_depth,
            has_king(*position),
            i <= moves.len(),
            moves@ == move_gen.all_pieces.moves_spec(*position),
            moves_count == capped_u64(moves_nodes(*move_gen, *position, moves@, i as int, curr_depth as int, max_depth as int)),
        decreases moves.len() - i,
    {
        let mve = moves[i];
        let c = count_child(move_gen, position, mve, curr_depth, max_depth);
        proof {
            let a = moves_nodes(*move_gen, *position, moves@, i as int, curr_depth as int, max_depth as int);
            let b = if position.make_move_ok(mve) {
                perft_nodes(*move_gen, position.spec_make_move(mve), curr_depth + 1, max_depth as int)
            } else {
                0
            };
            lemma_capped_add(a, b);
            assert(moves_nodes(*move_gen, *position, moves@, i + 1, curr_depth as int, max_depth as int) == a + b);
        }
        moves_count = moves_count.saturating_add(c);
        i += 1;
    }
    moves_count
}

/// The entries for the first `n` of the moves: each move that can be made, with the
/// count below it.
#[verifier::opaque]
pub open spec fn perft_entries(g: MoveGen, p: Position, moves: Seq<Move>, n: int, depth: int) -> Seq<(Move, u64)>
    decreases n,
{
    if n <= 0 {
        seq![]
    } else {
        perft_entries(g, p, moves, n - 1, depth) + if p.make_move_ok(moves[n - 1]) {
            seq![(moves[n - 1], capped_u64(perft_nodes(g, p.spec_make_move(moves[n - 1]), 1, depth)))]
        } else {
            seq![]
        }
    }
}

/// One more move adds its entry when it can be made.
proof fn lemma_entries_step(g: MoveGen, p: Position, moves: Seq<Move>, i: int, depth: int)
    requires
        0 <= i < moves.len(),
    ensures
        perft_entries(g, p, moves, i + 1, depth) == perft_entries(g, p, moves, i, depth) + if p.make_move_ok(moves[i]) {
            seq![(moves[i], capped_u64(perft_nodes(g, p.spec_make_move(moves[i]), 1, depth)))]
        } else {
            seq![]
        },
{
    reveal(perft_entries);
}

/// No move, no entry.
proof fn lemma_entries_none(g: MoveGen, p: Position, moves: Seq<Move>, depth: int)
    ensures
        perft_entries(g, p, moves, 0, depth) == Seq::<(Move, u64)>::empty(),
{
    reveal(perft_entries);
}

/// The sum of the entries' counts, saturating at the largest word.
pub open spec fn entries_total(s: Seq<(Move, u64)>) -> u64
    decreases s.len(),
{
    if s.len() == 0 {
        0
    } else {
        let a = entries_total(s.drop_last());
        let b = s.last().1;
        if a + b > u64::MAX { u64::MAX } else { (a + b) as u64 }
    }
}

/// The count below one move, when it can be made.
fn entry_for(move_gen: &MoveGen, position: &Position, mve: Move, depth: u64) -> (r: Option<u64>)
    requires
        move_gen.wf(),
        depth >= 1,
    ensures
        r == if position.make_move_ok(mve) {
            Some(capped_u64(perft_nodes(*move_gen, position.spec_make_move(mve), 1, depth as int)))
        } else {
            None::<u64>
        },
{
    if position.can_make_move(mve) {
        let mut move_pos = *position;
        move_pos.make_move(mve);
        Some(perft_helper(move_gen, &move_pos, 1, depth))
    } else {
        None
    }
}

/// Counts the positions at `depth` below the position: for each move that can be made,
/// in the order they are generated, the count below it; and the total.
pub fn perft(position: &Position, depth: u64, move_gen: &MoveGen) -> (r: (Vec<(Move, u64)>, u64))
    requires
        move_gen.wf(),
        has_king(*position),
        depth >= 1,
    ensures
        r.0@ == perft_entries(
            *move_gen,
            *position,
            move_gen.all_pieces.moves_spec(*position),
            move_gen.all_pieces.moves_spec(*position).len() as int,
            depth as int,
        ),
        r.1 == entries_total(r.0@),
{
    let moves = move_gen.all_pieces.gen_moves(position);
    let mut perft_results: Vec<(Move, u64)> = Vec::new();
    let mut tot_moves: u64 = 0;
    let mut i: usize = 0;
    proof {
        lemma_entries_none(*move_gen, *position, moves@, depth as int);
    }
    while i < moves.len()
        invariant
            move_gen.wf(),
            i <= moves.len(),
            moves@ == move_gen.all_pieces.moves_spec(*position),
            depth >= 1,
            perft_results@ == perft_entries(*move_gen, *position, moves@, i as int, depth as int),
            tot_moves == entries_total(perft_results@),
        decreases moves.len() - i,
    {
        let mve = moves[i];
        let ghost before = perft_results@;
        match entry_for(move_gen, position, mve, depth) {
            Some(moves_count) => {
                perft_results.push((mve, moves_count));
                proof {
                    assert(perft_results@.drop_last() =~= before);
                }
                tot_moves = tot_moves.saturating_add(moves_count);
            },
            None => {},
        }
        proof {
            lemma_entries_step(*move_gen, *position, moves@, i as int, depth as int);
            assert(perft_results@ =~= perft_entries(*move_gen, *position, moves@, i + 1, depth as int));
        }
        i += 1;
    }
    (perft_results, tot_moves)
}

/// What `perft_full` counts at one depth.
#[derive(Clone, Copy, Debug, PartialEq, Eq, Structural)]
pub struct PerftDepthResult {
    pub tot: u64,
    pub captures: u64,
    pub en_passants: u64,
    pub castles: u64,
    pub promotions: u64,
    pub checks: u64,
    pub discovery_checks: u64,
    pub double_checks: u64,
    pub checkmates: u64,
}

impl PerftDepthResult {
    /// The given counts.
    pub fn new(
        tot: u64,
        captures: u64,
        en_passants: u64,
        castles: u64,
        promotions: u64,
        checks: u64,
        discovery_checks: u64,
        double_checks: u64,
        checkmates: u64,
    ) -> (r: PerftDepthResult)
        ensures
            r == (PerftDepthResult {
                tot,
                captures,
                en_passants,
                castles,
                promotions,
                checks,
                discovery_checks,
                double_checks,
                checkmates,
            }),
    {
        PerftDepthResult { tot, captures, en_passants, castles, promotions, checks, discovery_checks, double_checks, checkmates }
    }

    /// All counts zero.
    pub fn empty() -> (r: PerftDepthResult)
        ensures
            r == empty_counts(),
    {
        PerftDepthResult::new(0, 0, 0, 0, 0, 0, 0, 0, 0)
    }
}

/// All counts zero.
pub open spec fn empty_counts() -> PerftDepthResult {
    PerftDepthResult {
        tot: 0,
        captures: 0,
        en_passants: 0,
        castles: 0,
        promotions: 0,
        checks: 0,
        discovery_checks: 0,
        double_checks: 0,
        checkmates: 0,
    }
}

/// A sum, or the largest word when it does not fit.
pub open spec fn sat(x: int) -> u64 {
    if x > u64::MAX { u64::MAX } else { x as u64 }
}

/// The kinds of moves that `perft_full` counts one by one.
#[derive(Clone, Copy, Debug, PartialEq, Eq, Structural)]
pub enum MoveCount {
    Capture,
    Castle,
    Promotion,
    Check,
    DoubleCheck,
    DiscoveryCheck,
}

/// The pieces that give check after the move, none when it cannot be made or the side to
/// move then has no king.
pub open spec fn child_checkers(g: MoveGen, p: Position, m: Move) -> u64 {
    if p.make_move_ok(m) && has_king(p.spec_make_move(m)) {
        g.all_pieces.checkers_word(p.spec_make_move(m))
    } else {
        0
    }
}

/// The move is of the kind: a capture (a pawn's move to the en passant target, or a move
/// onto a piece of the other side), a king moving two files, a promotion, a check, a check
/// by two pieces, or a check by one piece that is not the one moved.
pub open spec fn counted(kind: MoveCount, g: MoveGen, p: Position, m: Move) -> bool {
    let side = p.state.to_move;
    let ch = child_checkers(g, p, m);
    match kind {
        MoveCount::Capture => match p.state.en_passant_target {
            Some(t) => if m.dest == t {
                p.piece_on(m.src, side) == Some(Piece::Pawn)
            } else {
                p.sides.of(side.opp()).has(m.dest)
            },
            None => p.sides.of(side.opp()).has(m.dest),
        },
        MoveCount::Castle => p.piece_on(m.src, side) == Some(Piece::King) && m.src.abs_diff_spec(m.dest) == 2,
        MoveCount::Promotion => m.promotion is Some,
        MoveCount::Check => ch != 0,
        MoveCount::DoubleCheck => ch != 0 && bit_count(ch, 64) > 1,
        MoveCount::DiscoveryCheck => ch != 0 && bit_count(ch, 64) <= 1 && ch & !(1u64 << (m.dest.idx() as u64)) != 0,
    }
}

/// Among the first `n` bits, at least one is set exactly when one is, and at least two
/// exactly when two different ones are.
proof fn lemma_bit_count_one_two(v: u64, n: nat)
    requires
        n <= 64,
    ensures
        (bit_count(v, n) >= 1) == (exists|i: u64| i < n && #[trigger] bit_set(v, i)),
        (bit_count(v, n) >= 2) == (exists|i: u64, j: u64| i < j < n && #[trigger] bit_set(v, i) && #[trigger] bit_set(v, j)),
    decreases n,
{
    if n > 0 {
        let k = (n - 1) as u64;
        lemma_bit_count_one_two(v, (n - 1) as nat);
        if exists|i: u64| i < n && #[trigger] bit_set(v, i) {
            let i = choose|i: u64| i < n && #[trigger] bit_set(v, i);
            if i < k {
                assert(bit_count(v, (n - 1) as nat) >= 1);
            }
        }
        if exists|i: u64, j: u64| i < j < n && #[trigger] bit_set(v, i) && #[trigger] bit_set(v, j) {
            let (i, j) = choose|i: u64, j: u64| i < j < n && #[trigger] bit_set(v, i) && #[trigger] bit_set(v, j);
            if j < k {
                assert(bit_count(v, (n - 1) as nat) >= 2);
            } else {
                assert(bit_count(v, (n - 1) as nat) >= 1);
            }
        }
        if bit_count(v, (n - 1) as nat) >= 1 {
            let i = choose|i: u64| i < (n - 1) as nat && #[trigger] bit_set(v, i);
            if bit_set(v, k) {
                assert(i < k < n && bit_set(v, i) && bit_set(v, k));
            }
        }
        if bit_count(v, (n - 1) as nat) >= 2 {
            let (i, j) = choose|i: u64, j: u64| i < j < (n - 1) as nat && #[trigger] bit_set(v, i) && #[trigger] bit_set(v, j);
            assert(i < j < n && bit_set(v, i) && bit_set(v, j));
        }
    }
}

/// A move counts as a double check exactly when, after it, two different pieces give
/// check: two different squares of the checkers' board are set. A check by one piece is
/// never a double check, and a double check is a check.
pub proof fn lemma_double_check_means_two_checkers(g: MoveGen, p: Position, m: Move)
    ensures
        counted(MoveCount::DoubleCheck, g, p, m) == (exists|i: u64, j: u64|
            i < j < 64 && #[trigger] bit_set(child_checkers(g, p, m), i) && #[trigger] bit_set(child_checkers(g, p, m), j)),
        counted(MoveCount::DoubleCheck, g, p, m) ==> counted(MoveCount::Check, g, p, m),
{
    let ch = child_checkers(g, p, m);
    lemma_bit_count_one_two(ch, 64);
    crate::bitboard::lemma_bit_count_bound(ch, 64);
}

/// A discovered check is a check by a single piece: it is a check and never a double check.
pub proof fn lemma_discovery_check_is_single(g: MoveGen, p: Position, m: Move)
    ensures
        counted(MoveCount::DiscoveryCheck, g, p, m) ==> counted(MoveCount::Check, g, p, m) && !counted(MoveCount::DoubleCheck, g, p, m),
{
}

/// How many of the first `n` moves are of the kind.
pub open spec fn count_upto(kind: MoveCount, g: MoveGen, p: Position, moves: Seq<Move>, n: int) -> nat
    decreases n,
{
    if n <= 0 {
        0
    } else {
        count_upto(kind, g, p, moves, n - 1) + if counted(kind, g, p, moves[n - 1]) { 1nat } else { 0nat }
    }
}

/// Among the first `n` squares, those holding a pawn of the side to move that has a move
/// to the target.
pub open spec fn en_passant_sources(p: Position, moves: Seq<Move>, t: Square, n: int) -> nat
    decreases n,
{
    if n <= 0 {
        0
    } else {
        let sq = Square::spec_from_idx(n - 1);
        en_passant_sources(p, moves, t, n - 1) + if p.pieces.board(Piece::Pawn, p.state.to_move).has(sq) && exists|k: int|
            0 <= k < moves.len() && (#[trigger] moves[k]).src == sq && moves[k].dest == t {
            1nat
        } else {
            0nat
        }
    }
}

/// The counts of a position's moves added to `d`: the moves, captures, en passant
/// captures (by pawn), castles and promotions.
pub open spec fn with_move_counts(d: PerftDepthResult, g: MoveGen, p: Position, moves: Seq<Move>) -> PerftDepthResult {
    PerftDepthResult {
        tot: sat(d.tot + moves.len()),
        captures: sat(d.captures + count_upto(MoveCount::Capture, g, p, moves, moves.len() as int)),
        en_passants: match p.state.en_passant_target {
            Some(t) => sat(d.en_passants + en_passant_sources(p, moves, t, 64)),
            None => d.en_passants,
        },
        castles: sat(d.castles + count_upto(MoveCount::Castle, g, p, moves, moves.len() as int)),
        promotions: sat(d.promotions + count_upto(MoveCount::Promotion, g, p, moves, moves.len() as int)),
        ..d
    }
}

/// The checks a position's moves give added to `d`.
pub open spec fn with_check_counts(d: PerftDepthResult, g: MoveGen, p: Position, moves: Seq<Move>) -> PerftDepthResult {
    PerftDepthResult {
        checks: sat(d.checks + count_upto(MoveCount::Check, g, p, moves, moves.len() as int)),
        double_checks: sat(d.double_checks + count_upto(MoveCount::DoubleCheck, g, p, moves, moves.len() as int)),
        discovery_checks: sat(d.discovery_checks + count_upto(MoveCount::DiscoveryCheck, g, p, moves, moves.len() as int)),
        ..d
    }
}

/// The moves `perft_full` looks at: none when the side to move has no king.
pub open spec fn full_moves(g: MoveGen, p: Position) -> Seq<Move> {
    if has_king(p) { g.all_pieces.moves_spec(p) } else { seq![] }
}

/// The counts after visiting the position at depth `curr`: with no move, one more mate at
/// the depth above; below the last depth, its moves' counts at its depth, then its
/// children's, then its checks.
pub open spec fn full_node(g: MoveGen, p: Position, max: int, curr: int, r: Seq<PerftDepthResult>) -> Seq<PerftDepthResult>
    decreases max - curr, 1int, 0int,
{
    let moves = full_moves(g, p);
    if moves.len() == 0 {
        if 1 <= curr <= r.len() {
            r.update(curr - 1, PerftDepthResult { checkmates: sat(r[curr - 1].checkmates + 1), ..r[curr - 1] })
        } else {
            r
        }
    } else if curr >= max || curr < 0 || curr >= r.len() {
        r
    } else {
        let r1 = r.update(curr, with_move_counts(r[curr], g, p, moves));
        let r2 = full_children(g, p, moves, moves.len() as int, max, curr, r1);
        r2.update(curr, with_check_counts(r2[curr], g, p, moves))
    }
}

/// The counts after visiting the children of the first `n` moves that can be made.
pub open spec fn full_children(
    g: MoveGen,
    p: Position,
    moves: Seq<Move>,
    n: int,
    max: int,
    curr: int,
    r: Seq<PerftDepthResult>,
) -> Seq<PerftDepthResult>
    decreases max - curr, 0int, n,
{
    if n <= 0 || curr >= max {
        r
    } else {
        let before = full_children(g, p, moves, n - 1, max, curr, r);
        if p.make_move_ok(moves[n - 1]) {
            full_node(g, p.spec_make_move(moves[n - 1]), max, curr + 1, before)
        } else {
            before
        }
    }
}

/// Visiting keeps the number of depths.
proof fn lemma_full_len(g: MoveGen, p: Position, max: int, curr: int, r: Seq<PerftDepthResult>)
    ensures
        full_node(g, p, max, curr, r).len() == r.len(),
    decreases max - curr, 1int, 0int,
{
    let moves = full_moves(g, p);
    if moves.len() != 0 && !(curr >= max || curr < 0 || curr >= r.len()) {
        let r1 = r.update(curr, with_move_counts(r[curr], g, p, moves));
        lemma_children_len(g, p, moves, moves.len() as int, max, curr, r1);
    }
}

/// Visiting children keeps the number of depths.
proof fn lemma_children_len(g: MoveGen, p: Position, moves: Seq<Move>, n: int, max: int, curr: int, r: Seq<PerftDepthResult>)
    ensures
        full_children(g, p, moves, n, max, curr, r).len() == r.len(),
    decreases max - curr, 0int, n,
{
    if !(n <= 0 || curr >= max) {
        lemma_children_len(g, p, moves, n - 1, max, curr, r);
        if p.make_move_ok(moves[n - 1]) {
            lemma_full_len(g, p.spec_make_move(moves[n - 1]), max, curr + 1, full_children(g, p, moves, n - 1, max, curr, r));
        }
    }
}

/// The pieces that give check after the move.
fn child_checkers_of(g: &MoveGen, p: &Position, m: Move) -> (r: BitBoard)
    requires
        g.wf(),
    ensures
        r.0 == child_checkers(*g, *p, m),
{
    if p.can_make_move(m) {
        let mut child = *p;
        child.make_move(m);
        if !child.pieces.get(Piece::King).get(child.state.to_move).is_empty() {
            return g.all_pieces.get_checkers(&child);
        }
    }
    BitBoard::empty()
}

/// Whether the move is of the kind.
fn is_counted(kind: MoveCount, g: &MoveGen, p: &Position, m: Move) -> (r: bool)
    requires
        g.wf(),
    ensures
        r == counted(kind, *g, *p, m),
{
    let side = p.state.to_move;
    match kind {
        MoveCount::Capture => {
            let opp = p.sides.get(side.opposite_side());
            match p.state.en_passant_target {
                Some(t) => {
                    if m.dest == t {
                        match p.is_piece_at(m.src, side) {
                            Some(Piece::Pawn) => true,
                            _ => false,
                        }
                    } else {
                        opp.is_square_set(m.dest)
                    }
                },
                None => opp.is_square_set(m.dest),
            }
        },
        MoveCount::Castle => match p.is_piece_at(m.src, side) {
            Some(Piece::King) => m.src.abs_diff(m.dest) == 2,
            _ => false,
        },
        MoveCount::Promotion => m.promotion.is_some(),
        MoveCount::Check => child_checkers_of(g, p, m).0 != 0,
        MoveCount::DoubleCheck => {
            let ch = child_checkers_of(g, p, m);
            ch.0 != 0 && ch.num_squares_set() > 1
        },
        MoveCount::DiscoveryCheck => {
            let ch = child_checkers_of(g, p, m);
            if ch.0 == 0 || ch.num_squares_set() > 1 {
                false
            } else {
                let mut rest = ch;
                rest.clear_square(m.dest);
                rest.0 != 0
            }
        },
    }
}

/// How many of the moves are of the kind.
fn count_moves(kind: MoveCount, g: &MoveGen, p: &Position, moves: &Vec<Move>) -> (r: u64)
    requires
        g.wf(),
    ensures
        r == count_upto(kind, *g, *p, moves@, moves.len() as int),
{
    let mut c: u64 = 0;
    let mut i: usize = 0;
    while i < moves.len()
        invariant
            g.wf(),
            i <= moves.len(),
            c == count_upto(kind, *g, *p, moves@, i as int),
            c <= i,
        decreases moves.len() - i,
    {
        if is_counted(kind, g, p, moves[i]) {
            c += 1;
        }
        i += 1;
    }
    c
}

/// Whether one of the moves goes from the square to the target.
fn has_move_between(moves: &Vec<Move>, src: Square, dest: Square) -> (r: bool)
    ensures
        r == exists|k: int| 0 <= k < moves@.len() && (#[trigger] moves@[k]).src == src && moves@[k].dest == dest,
{
    let mut i: usize = 0;
    while i < moves.len()
        invariant
            i <= moves.len(),
            forall|k: int| 0 <= k < i ==> !((#[trigger] moves@[k]).src == src && moves@[k].dest == dest),
        decreases moves.len() - i,
    {
        if moves[i].src == src && moves[i].dest == dest {
            return true;
        }
        i += 1;
    }
    false
}

/// The pawns of the side to move that have a move to the target.
fn count_en_passant_sources(p: &Position, moves: &Vec<Move>, t: Square) -> (r: u64)
    ensures
        r == en_passant_sources(*p, moves@, t, 64),
{
    let pawns = p.pieces.get(Piece::Pawn).get(p.state.to_move);
    let mut c: u64 = 0;
    let mut i: u8 = 0;
    while i < 64
        invariant
            i <= 64,
            pawns == p.pieces.board(Piece::Pawn, p.state.to_move),
            c == en_passant_sources(*p, moves@, t, i as int),
            c <= i,
        decreases 64 - i,
    {
        let sq = Square::from_u8(i);
        proof {
            Square::lemma_from_idx(i as int);
            Square::lemma_idx_injective(sq, Square::spec_from_idx(i as int));
        }
        if pawns.is_square_set(sq) && has_move_between(moves, sq, t) {
            c += 1;
        }
        i += 1;
    }
    c
}

/// Adds a position's move counts.
fn add_move_counts(d: PerftDepthResult, g: &MoveGen, p: &Position, moves: &Vec<Move>) -> (r: PerftDepthResult)
    requires
        g.wf(),
    ensures
        r == with_move_counts(d, *g, *p, moves@),
{
    let en_passants = match p.state.en_passant_target {
        Some(t) => d.en_passants.saturating_add(count_en_passant_sources(p, moves, t)),
        None => d.en_passants,
    };
    PerftDepthResult {
        tot: d.tot.saturating_add(moves.len() as u64),
        captures: d.captures.saturating_add(count_moves(MoveCount::Capture, g, p, moves)),
        en_passants,
        castles: d.castles.saturating_add(count_moves(MoveCount::Castle, g, p, moves)),
        promotions: d.promotions.saturating_add(count_moves(MoveCount::Promotion, g, p, moves)),
        ..d
    }
}

/// Adds the checks a position's moves give.
fn add_check_counts(d: PerftDepthResult, g: &MoveGen, p: &Position, moves: &Vec<Move>) -> (r: PerftDepthResult)
    requires
        g.wf(),
    ensures
        r == with_check_counts(d, *g, *p, moves@),
{
    PerftDepthResult {
        checks: d.checks.saturating_add(count_moves(MoveCount::Check, g, p, moves)),
        double_checks: d.double_checks.saturating_add(count_moves(MoveCount::DoubleCheck, g, p, moves)),
        discovery_checks: d.discovery_checks.saturating_add(count_moves(MoveCount::DiscoveryCheck, g, p, moves)),
        ..d
    }
}

/// The moves of the position, none when the side to move has no king.
fn moves_of(g: &MoveGen, p: &Position) -> (r: Vec<Move>)
    requires
        g.wf(),
    ensures
        r@ == full_moves(*g, *p),
{
    if p.pieces.get(Piece::King).get(p.state.to_move).is_empty() {
        Vec::new()
    } else {
        g.all_pieces.gen_moves(p)
    }
}

/// Visits the position at depth `curr` and everything below it to depth `max_depth`,
/// adding what it finds to the counts of each depth.
#[verifier::rlimit(60)]
fn perft_full_helper(results: &mut Vec<PerftDepthResult>, position: &Position, max_depth: u64, curr_depth: u64, g: &MoveGen)
    requires
        g.wf(),
        old(results).len() == max_depth,
        curr_depth <= max_depth,
    ensures
        final(results)@ == full_node(*g, *position, max_depth as int, curr_depth as int, old(results)@),
        final(results).len() == max_depth,
    decreases max_depth - curr_depth, 1int,
{
    proof {
        lemma_full_len(*g, *position, max_depth as int, curr_depth as int, results@);
    }
    let moves = moves_of(g, position);
    if moves.len() == 0 {
        if curr_depth >= 1 {
            let k = (curr_depth - 1) as usize;
            let d = results[k];
            results.set(k, PerftDepthResult { checkmates: d.checkmates.saturating_add(1), ..d });
        }
        return;
    }
    if curr_depth >= max_depth {
        return;
    }
    let k = curr_depth as usize;
    let d = results[k];
    let d1 = add_move_counts(d, g, position, &moves);
    results.set(k, d1);
    let ghost r1 = results@;
    let mut i: usize = 0;
    while i < moves.len()
        invariant
            g.wf(),
            i <= moves.len(),
            moves@ == full_moves(*g, *position),
            curr_depth < max_depth,
            k == curr_depth,
            results.len() == max_depth,
            results@ == full_children(*g, *position, moves@, i as int, max_depth as int, curr_depth as int, r1),
        decreases moves.len() - i,
    {
        let mve = moves[i];
        visit_child(results, position, mve, max_depth, curr_depth, g);
        i += 1;
    }
    let d2 = results[k];
    let d3 = add_check_counts(d2, g, position, &moves);
    results.set(k, d3);
}

/// Visits the position a move leads to, when it can be made.
fn visit_child(results: &mut Vec<PerftDepthResult>, position: &Position, mve: Move, max_depth: u64, curr_depth: u64, g: &MoveGen)
    requires
        g.wf(),
        old(results).len() == max_depth,
        curr_depth < max_depth,
    ensures
        final(results)@ == if position.make_move_ok(mve) {
            full_node(*g, position.spec_make_move(mve), max_depth as int, curr_depth + 1, old(results)@)
        } else {
            old(results)@
        },
        final(results).len() == max_depth,
    decreases max_depth - curr_depth, 0int,
{
    if position.can_make_move(mve) {
        let mut child = *position;
        child.make_move(mve);
        perft_full_helper(results, &child, max_depth, curr_depth + 1, g);
    }
}

/// The sum of the first `n` depths' node counts, saturating.
pub open spec fn total_nodes(s: Seq<PerftDepthResult>, n: int) -> u64
    decreases n,
{
    if n <= 0 {
        0
    } else {
        sat(total_nodes(s, n - 1) + s[n - 1].tot)
    }
}

/// Counts, for each depth from one to `depth` below the position, the positions reached
/// and how many came from captures, en passant captures, castles, promotions, checks,
/// discovered checks and double checks, and how many positions one level up had no move;
/// and the total of the positions reached.
pub fn perft_full(position: &Position, depth: u64, move_gen: &MoveGen) -> (r: (Vec<PerftDepthResult>, u64))
    requires
        move_gen.wf(),
        has_king(*position),
        move_gen.all_pieces.moves_spec(*position).len() > 0,
        depth <= usize::MAX,
    ensures
        r.0@ == full_node(*move_gen, *position, depth as int, 0, Seq::new(depth as nat, |i: int| empty_counts())),
        r.1 == total_nodes(r.0@, depth as int),
{
    let mut results: Vec<PerftDepthResult> = Vec::new();
    let mut i: u64 = 0;
    while i < depth
        invariant
            i <= depth,
            depth <= usize::MAX,
            results@ =~= Seq::new(i as nat, |j: int| empty_counts()),
        decreases depth - i,
    {
        results.push(PerftDepthResult::empty());
        i += 1;
    }
    perft_full_helper(&mut results, position, depth, 0, move_gen);
    let mut tot: u64 = 0;
    let mut k: usize = 0;
    while k < results.len()
        invariant
            k <= results.len(),
            results.len() == depth,
            tot == total_nodes(results@, k as int),
        decreases results.len() - k,
    {
        tot = tot.saturating_add(results[k].tot);
        k += 1;
    }
    (results, tot)
}

} // verus!
