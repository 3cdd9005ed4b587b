use flying_fish::evaluation::{get_piece_square_bonus, piece_value, Eval, PositionEvaluator};
use flying_fish::bitboard::Square;
use flying_fish::move_gen::MoveGen;
use flying_fish::position::{Move, Piece, Position};

#[test]
fn test_eval_ord() {
    let evals_order_want = vec![
        Eval::mate_in(0),
        Eval::mate_in(2),
        Eval(-20),
        Eval(-1),
        Eval::draw(),
        Eval(1),
        Eval(20),
        Eval::mate_in(3),
        Eval::mate_in(1),
    ];
    let mut evals = vec![
        Eval::mate_in(0),
        Eval::mate_in(1),
        Eval::mate_in(2),
        Eval::mate_in(3),
        Eval(-20),
        Eval(-1),
        Eval::draw(),
        Eval(1),
        Eval(20),
    ];

    evals.sort();

    assert_eq!(evals, evals_order_want);
}

#[test]
fn test_obvious_eval() {
    let position = Position::from_fen("2k5/Q7/8/8/8/8/8/7K w - - 0 1").unwrap();
    let move_gen = MoveGen::new();
    let eval = PositionEvaluator.evaluate(&position, &move_gen);

    // Should be at least 5 pawns better than the opponent
    assert!(eval > Eval(500));
}

#[test]
fn eval_flip_cases() {
    assert_eq!(Eval(10).flip(), Eval(-10));
    assert_eq!(Eval::mate_in(0).flip(), Eval::mate_in(1));
    assert_eq!(Eval::mate_in(1).flip(), Eval::mate_in(2));
    assert_eq!(Eval::mate_in(4).flip(), Eval::mate_in(5));
    assert_eq!(Eval::draw().flip(), Eval::draw());
}

#[test]
fn eval_flip_twice_is_identity() {
    for e in [Eval(37), Eval(-512), Eval::draw()] {
        assert_eq!(e.flip().flip(), e);
    }
}

#[test]
fn eval_is_mate_cases() {
    assert_eq!(Eval::mate_in(0).is_mate(), Some(0));
    assert_eq!(Eval::mate_in(2).is_mate(), Some(2));
    assert_eq!(Eval::mate_in(1).is_mate(), Some(1));
    assert_eq!(Eval::mate_in(7).is_mate(), Some(7));
    assert_eq!(Eval::draw().is_mate(), None);
    assert_eq!(Eval(10).is_mate(), None);
}

#[test]
fn eval_extremes_bracket_mates() {
    assert_eq!(Eval::min_eval(), Eval::mate_in(0));
    assert_eq!(Eval::max_eval(), Eval::mate_in(1));
    assert!(Eval::min_eval() < Eval(-29_000));
    assert!(Eval(29_000) < Eval::max_eval());
}

#[test]
fn piece_values() {
    assert_eq!(piece_value(Piece::Pawn), 100);
    assert_eq!(piece_value(Piece::Queen), 900);
    assert!(piece_value(Piece::King) > piece_value(Piece::Queen));
}

#[test]
fn start_position_is_balanced() {
    let position = Position::start();
    let move_gen = MoveGen::new();
    assert_eq!(PositionEvaluator.evaluate(&position, &move_gen), Eval(0));
}

#[test]
fn checkmated_side_evaluates_as_mate() {
    // Black to move is mated by the queen on the back rank.
    let position = Position::from_fen("k1Q5/8/1K6/8/8/8/8/8 b - - 0 1").unwrap();
    let move_gen = MoveGen::new();
    assert_eq!(PositionEvaluator.evaluate(&position, &move_gen), Eval::mate_in(0));
}

#[test]
fn stalemate_and_fifty_moves_are_draws() {
    let move_gen = MoveGen::new();
    let stalemate = Position::from_fen("k7/2Q5/1K6/8/8/8/8/8 b - - 0 1").unwrap();
    assert_eq!(PositionEvaluator.evaluate(&stalemate, &move_gen), Eval::draw());
    let mut fifty = Position::from_fen("2k5/Q7/8/8/8/8/8/7K w - - 49 1").unwrap();
    fifty.make_move(Move::new(Square::H1, Square::G1));
    assert_eq!(fifty.state.half_move_clock, 50);
    assert_eq!(PositionEvaluator.evaluate(&fifty, &move_gen), Eval::draw());
}

#[test]
fn piece_square_bonus_knight_center() {
    let center = get_piece_square_bonus(Piece::Knight, Square::D4, true);
    let corner = get_piece_square_bonus(Piece::Knight, Square::A1, true);
    assert!(center > corner);
}

#[test]
fn eval_display_strings() {
    assert_eq!(Eval(35).to_display_string(), "cp 35");
    assert_eq!(Eval(-12).to_display_string(), "cp -12");
    assert_eq!(Eval::draw().to_display_string(), "cp 0");
    assert_eq!(Eval::mate_in(4).to_display_string(), "+m4");
    assert_eq!(Eval::mate_in(3).to_display_string(), "-m3");
}

#[test]
fn piece_square_bonus_reads_tables_from_white_side() {
    assert_eq!(get_piece_square_bonus(Piece::Pawn, Square::D2, true), -20);
    assert_eq!(get_piece_square_bonus(Piece::Pawn, Square::A7, false), 50);
    assert_eq!(get_piece_square_bonus(Piece::King, Square::G1, true), 30);
    assert_eq!(get_piece_square_bonus(Piece::King, Square::E8, true), -50);
    assert_eq!(get_piece_square_bonus(Piece::Rook, Square::D1, true), 5);
    assert_eq!(get_piece_square_bonus(Piece::Rook, Square::A7, true), 5);
    assert_eq!(get_piece_square_bonus(Piece::Queen, Square::A4, true), 0);
    assert_eq!(get_piece_square_bonus(Piece::King, Square::E4, false), 40);
}
