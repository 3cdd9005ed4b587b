use std::sync::atomic::AtomicBool;

use flying_fish::bitboard::Square;
use flying_fish::evaluation::PositionEvaluator;
use flying_fish::move_gen::MoveGen;
use flying_fish::position::{Move, Position, Side};
use flying_fish::evaluation::Eval;
use flying_fish::search::{calc_time_to_use, get_time_to_use, quiescence_search, search, search_helper, SearchError, SearchParams, SearchStats};
use flying_fish::transposition_table::TranspositionTable;

fn best_move(fen: &str, depth: u8) -> Option<Move> {
    let move_gen = MoveGen::new();
    let mut tt = TranspositionTable::with_num_entries_power_of_two(16);
    let params = SearchParams { max_depth: Some(depth), move_time: Some(10_000), ..SearchParams::new() };
    let terminate = AtomicBool::new(false);
    let position = Position::from_fen(fen).unwrap();
    search(&position, &params, &move_gen, &PositionEvaluator, &mut tt, &terminate).unwrap().0
}

#[test]
fn finds_rook_ladder_mate_white() {
    assert_eq!(best_move("k7/6R1/7R/8/8/8/8/3K4 w - - 0 1", 1), Some(Move::new(Square::H6, Square::H8)));
}

#[test]
fn finds_rook_ladder_mate_black() {
    assert_eq!(best_move("8/k7/8/8/8/1r6/r7/7K b - - 0 1", 1), Some(Move::new(Square::B3, Square::B1)));
}

#[test]
fn takes_the_hanging_queen() {
    assert_eq!(
        best_move("rnbqkbnr/ppp2ppp/8/3pp3/4P1Q1/2N5/PPPP1PPP/R1B1KBNR b KQkq - 0 1", 1),
        Some(Move::new(Square::C8, Square::G4))
    );
}

#[test]
fn avoids_stalemate() {
    let got = best_move("k7/8/1R6/8/8/8/8/1R1K4 w - - 0 1", 1);
    assert_ne!(got, Some(Move::new(Square::B6, Square::B7)));
    assert_ne!(got, None);
}

#[test]
fn depth_and_mate_together_are_refused() {
    let move_gen = MoveGen::new();
    let mut tt = TranspositionTable::with_num_entries_power_of_two(8);
    let params = SearchParams { max_depth: Some(2), mate: Some(3), ..SearchParams::new() };
    let terminate = AtomicBool::new(false);
    let got = search(&Position::start(), &params, &move_gen, &PositionEvaluator, &mut tt, &terminate);
    assert_eq!(got.err(), Some(SearchError::DepthAndMatePassed(2, 3)));
}

#[test]
fn stopped_search_still_answers() {
    let move_gen = MoveGen::new();
    let mut tt = TranspositionTable::with_num_entries_power_of_two(8);
    let params = SearchParams { move_time: Some(2000), ..SearchParams::new() };
    let terminate = AtomicBool::new(true);
    let got = search(&Position::start(), &params, &move_gen, &PositionEvaluator, &mut tt, &terminate).unwrap();
    if let Some(m) = got.0 {
        assert!(move_gen.all_pieces.gen_moves(&Position::start()).contains(&m));
    }
}

#[test]
fn time_to_use_formula() {
    assert_eq!(calc_time_to_use(60_000, Some(1000), None), (2425, 4850));
    assert_eq!(calc_time_to_use(60_000, None, Some(10)), (5700, 11400));
    let params = SearchParams { white_time: Some(60_000), move_time: Some(500), ..SearchParams::new() };
    let (soft, hard) = get_time_to_use(&params, Side::White);
    assert!(soft.is_some());
    assert_eq!(hard, Some(500));
    assert_eq!(get_time_to_use(&params, Side::Black), (None, Some(500)));
}

#[test]
fn mated_side_gets_worst_score() {
    let move_gen = MoveGen::new();
    let mut tt = TranspositionTable::with_num_entries_power_of_two(8);
    let params = SearchParams::new();
    let terminate = AtomicBool::new(false);
    let position = Position::from_fen("k6R/6R1/8/8/8/8/8/3K4 b - - 1 1").unwrap();
    let mut stats = SearchStats { max_depth_reached: 0, positions_processed: 0 };
    let start = std::time::Instant::now();
    let got = search_helper(
        &position, &params, 1, 2, &mut stats, &start, Eval::min_eval(), Eval::max_eval(), &move_gen,
        &PositionEvaluator, &mut tt, &terminate,
    );
    assert_eq!(got, Some(Eval::min_eval()));
}

#[test]
fn node_limit_stops_the_search() {
    let move_gen = MoveGen::new();
    let mut tt = TranspositionTable::with_num_entries_power_of_two(8);
    let params = SearchParams { max_nodes: Some(5), ..SearchParams::new() };
    let terminate = AtomicBool::new(false);
    let mut stats = SearchStats { max_depth_reached: 0, positions_processed: 5 };
    let start = std::time::Instant::now();
    let got = search_helper(
        &Position::start(), &params, 1, 3, &mut stats, &start, Eval::min_eval(), Eval::max_eval(), &move_gen,
        &PositionEvaluator, &mut tt, &terminate,
    );
    assert_eq!(got, None);
}

#[test]
fn quiescence_stands_pat_when_quiet() {
    let move_gen = MoveGen::new();
    let params = SearchParams::new();
    let terminate = AtomicBool::new(false);
    let position = Position::start();
    let stand_pat = PositionEvaluator.evaluate(&position, &move_gen);
    let mut stats = SearchStats { max_depth_reached: 0, positions_processed: 0 };
    let start = std::time::Instant::now();
    let got = quiescence_search(
        &position, &params, 1, 1, &mut stats, &start, Eval::min_eval(), Eval::max_eval(), &move_gen,
        &PositionEvaluator, &terminate,
    );
    assert_eq!(got, Some(stand_pat));
}

#[test]
fn move_evals_are_ordered_best_first() {
    let move_gen = MoveGen::new();
    let mut tt = TranspositionTable::with_num_entries_power_of_two(12);
    let params = SearchParams { max_depth: Some(2), move_time: Some(10_000), ..SearchParams::new() };
    let terminate = AtomicBool::new(false);
    let position = Position::from_fen("rnbqkbnr/ppp2ppp/8/3pp3/4P1Q1/2N5/PPPP1PPP/R1B1KBNR b KQkq - 0 1").unwrap();
    let (best, info) = search(&position, &params, &move_gen, &PositionEvaluator, &mut tt, &terminate).unwrap();
    assert!(!info.move_evals.is_empty());
    assert_eq!(best, Some(info.move_evals[0].0));
    for w in info.move_evals.windows(2) {
        assert!(w[0].1 .0 >= w[1].1 .0);
    }
}
