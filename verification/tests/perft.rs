use flying_fish::bitboard::Square;
use flying_fish::move_gen::MoveGen;
use flying_fish::perft::{perft, perft_full, PerftDepthResult};
use flying_fish::position::{Move, Position};

const KIWIPETE: &str = "r3k2r/p1ppqpb1/bn2pnp1/3PN3/1p2P3/2N2Q1p/PPPBBPPP/R3K2R w KQkq - 0 1";

#[test]
fn perft_start_depths() {
    let move_gen = MoveGen::new();
    let position = Position::start();
    assert_eq!(perft(&position, 1, &move_gen).1, 20);
    assert_eq!(perft(&position, 2, &move_gen).1, 400);
    assert_eq!(perft(&position, 3, &move_gen).1, 8902);
}

#[test]
fn perft_lists_each_move() {
    let move_gen = MoveGen::new();
    let (counts, total) = perft(&Position::start(), 2, &move_gen);
    assert_eq!(counts.len(), 20);
    assert!(counts.iter().all(|(_, c)| *c == 20));
    assert_eq!(total, 400);
    assert!(counts.contains(&(Move::new(Square::E2, Square::E4), 20)));
}

#[test]
fn perft_kiwipete() {
    let move_gen = MoveGen::new();
    let position = Position::from_fen(KIWIPETE).unwrap();
    assert_eq!(perft(&position, 1, &move_gen).1, 48);
    assert_eq!(perft(&position, 2, &move_gen).1, 2039);
}

#[test]
fn perft_endgame() {
    let move_gen = MoveGen::new();
    let position = Position::from_fen("8/2p5/3p4/KP5r/1R3p1k/8/4P1P1/8 w - - 0 1").unwrap();
    assert_eq!(perft(&position, 1, &move_gen).1, 14);
    assert_eq!(perft(&position, 2, &move_gen).1, 191);
    assert_eq!(perft(&position, 3, &move_gen).1, 2812);
}

#[test]
fn en_passant_that_opens_a_rank_is_refused() {
    let move_gen = MoveGen::new();
    // Taking e3 en passant would leave the black king on h4 open to the rook on b4.
    let position = Position::from_fen("8/8/8/8/1R2Pp1k/8/8/K7 b - e3 0 1").unwrap();
    let moves = move_gen.all_pieces.gen_moves(&position);
    assert!(!moves.contains(&Move::new(Square::F4, Square::E3)));
    let open = Position::from_fen("8/8/8/8/4Pp1k/8/8/K7 b - e3 0 1").unwrap();
    assert!(move_gen.all_pieces.gen_moves(&open).contains(&Move::new(Square::F4, Square::E3)));
}

#[test]
fn perft_depth_result_constructors() {
    let empty = PerftDepthResult::empty();
    assert_eq!(empty, PerftDepthResult::new(0, 0, 0, 0, 0, 0, 0, 0, 0));
    let r = PerftDepthResult::new(1, 2, 3, 4, 5, 6, 7, 8, 9);
    assert_eq!(r.tot, 1);
    assert_eq!(r.checkmates, 9);
}

#[test]
fn perft_full_start() {
    let move_gen = MoveGen::new();
    let (results, total) = perft_full(&Position::start(), 2, &move_gen);
    assert_eq!(results.len(), 2);
    assert_eq!(results[0], PerftDepthResult::new(20, 0, 0, 0, 0, 0, 0, 0, 0));
    assert_eq!(results[1], PerftDepthResult::new(400, 0, 0, 0, 0, 0, 0, 0, 0));
    assert_eq!(total, 420);
}

#[test]
fn perft_full_kiwipete() {
    let move_gen = MoveGen::new();
    let position = Position::from_fen(KIWIPETE).unwrap();
    let (results, total) = perft_full(&position, 2, &move_gen);
    assert_eq!(results[0].tot, 48);
    assert_eq!(results[0].captures, 8);
    assert_eq!(results[0].castles, 2);
    assert_eq!(results[0].promotions, 0);
    assert_eq!(results[0].checks, 0);
    assert_eq!(results[1].tot, 2039);
    assert_eq!(results[1].captures, 351);
    assert_eq!(results[1].en_passants, 1);
    assert_eq!(results[1].castles, 91);
    assert_eq!(results[1].checks, 3);
    assert_eq!(total, 48 + 2039);
}

#[test]
fn perft_full_counts_en_passant() {
    let move_gen = MoveGen::new();
    let position =
        Position::from_fen("r3k2r/p1ppqpb1/bn2pnp1/3PN3/Pp2P3/2N2Q1p/1PPBBPPP/R3K2R b KQkq a3 0 1").unwrap();
    let (results, _) = perft_full(&position, 1, &move_gen);
    assert_eq!(results[0].en_passants, 1);
}

#[test]
fn perft_full_counts_mates_one_level_up() {
    let move_gen = MoveGen::new();
    // White mates with Qb7 (among other moves); the mated positions count at depth one.
    let position = Position::from_fen("k7/8/1K6/8/8/8/8/1Q6 w - - 0 1").unwrap();
    let (results, _) = perft_full(&position, 1, &move_gen);
    assert!(results[0].checkmates >= 1);
    assert!(results[0].checks >= 1);
}

#[test]
fn perft_kiwipete_depth_three() {
    let move_gen = MoveGen::new();
    let position = Position::from_fen(KIWIPETE).unwrap();
    assert_eq!(perft(&position, 3, &move_gen).1, 97862);
}

#[test]
fn perft_promotions_and_castling_rights() {
    let move_gen = MoveGen::new();
    let position = Position::from_fen("r3k2r/Pppp1ppp/1b3nbN/nP6/BBP1P3/q4N2/Pp1P2PP/R2Q1RK1 w kq - 0 1").unwrap();
    assert_eq!(perft(&position, 1, &move_gen).1, 6);
    assert_eq!(perft(&position, 2, &move_gen).1, 264);
    assert_eq!(perft(&position, 3, &move_gen).1, 9467);
}

#[test]
fn perft_middlegame_with_checks() {
    let move_gen = MoveGen::new();
    let position = Position::from_fen("rnbq1k1r/pp1Pbppp/2p5/8/2B5/8/PPP1NnPP/RNBQK2R w KQ - 1 8").unwrap();
    assert_eq!(perft(&position, 1, &move_gen).1, 44);
    assert_eq!(perft(&position, 2, &move_gen).1, 1486);
    assert_eq!(perft(&position, 3, &move_gen).1, 62379);
}
