use flying_fish::bitboard::Square;
use flying_fish::move_gen::MoveGen;
use flying_fish::position::fen::FenParseError;
use flying_fish::position::{Move, Piece, Position, Side};

#[test]
fn mod_test_state_start() {
    let pos = Position::start();

    assert!(pos.state.castling_rights.white_king_side);
    assert!(pos.state.castling_rights.white_queen_side);
    assert!(pos.state.castling_rights.black_king_side);
    assert!(pos.state.castling_rights.black_queen_side);

    assert_eq!(pos.state.half_move_clock, 0);
    assert_eq!(pos.state.en_passant_target, None);
    assert_eq!(pos.state.to_move, Side::White);
}

#[test]
fn test_state_start() {
    let pos = Position::start();

    assert!(pos.state.castling_rights.white_king_side);
    assert!(pos.state.castling_rights.white_queen_side);
    assert!(pos.state.castling_rights.black_king_side);
    assert!(pos.state.castling_rights.black_queen_side);

    assert_eq!(pos.state.half_move_clock, 0);
    assert_eq!(pos.state.en_passant_target, None);
    assert_eq!(pos.state.to_move, Side::White);
}

#[test]
fn position_test_state_start() {
    let pos = Position::start();

    assert!(pos.state.castling_rights.white_king_side);
    assert!(pos.state.castling_rights.white_queen_side);
    assert!(pos.state.castling_rights.black_king_side);
    assert!(pos.state.castling_rights.black_queen_side);

    assert_eq!(pos.state.half_move_clock, 0);
    assert_eq!(pos.state.en_passant_target, None);
    assert_eq!(pos.state.to_move, Side::White);
}

#[test]
fn position_test_display() {
    let got = Position::start();
    let want = "RNBQKBNR\nPPPPPPPP\n........\n........\n........\n........\npppppppp\nrnbqkbnr";

    assert_eq!(got.to_board_string(), want);
}

#[test]
fn mod_test_display() {
    let got = Position::start();
    let want = "RNBQKBNR\nPPPPPPPP\n........\n........\n........\n........\npppppppp\nrnbqkbnr";

    assert_eq!(got.to_board_string(), want);
}

#[test]
fn make_move_moves_the_piece() {
    let mut position = Position::start();
    let mve = Move::new(Square::D2, Square::D4);
    assert!(position.is_piece_at(mve.src, Side::White).is_some());
    assert!(position.is_piece_at(mve.dest, Side::White).is_none());

    let _ = position.make_move(mve);

    assert!(position.is_piece_at(mve.src, Side::White).is_none());
    assert!(position.is_piece_at(mve.src, Side::Black).is_none());
    assert!(position.is_piece_at(mve.dest, Side::White).is_some());
    assert_eq!(position.state.to_move, Side::Black);
    assert_eq!(position.state.en_passant_target, Some(Square::D3));
}

#[test]
fn make_move_sets_en_passant_target() {
    let mut position =
        Position::from_fen("r3k2r/p1ppqpb1/bn2pnp1/3PN3/1p2P3/2N2Q1p/PPPBBPPP/R3K2R w KQkq - 0 1").unwrap();
    position.make_move(Move::new(Square::A2, Square::A4));
    assert_eq!(position.state.en_passant_target, Some(Square::A3));
}

#[test]
fn move_arrow_strings() {
    assert_eq!(Move::new(Square::A1, Square::G7).to_arrow_string(), "A1 -> G7");
    assert_eq!(
        Move::with_promotion(Square::F7, Square::B6, Piece::Queen).to_arrow_string(),
        "F7 -> B6 (Queen)"
    );
}

#[test]
fn is_capture_cases() {
    let position = Position::from_fen("7k/8/4q3/8/8/4R3/5P2/K7 b - - 0 1").unwrap();
    assert!(position.is_capture(&Move::new(Square::E6, Square::E3)));
    assert!(!position.is_capture(&Move::new(Square::E6, Square::E4)));
}

fn assert_unmake_restores(fen: Option<&str>, mve: Move) {
    let position = match fen {
        Some(f) => Position::from_fen(f).unwrap(),
        None => Position::start(),
    };
    let mut moved = position;
    assert!(moved.can_make_move(mve));
    let undo = moved.make_move(mve);
    assert_ne!(moved, position);
    moved.unmake_move(undo).unwrap();
    assert_eq!(moved, position);
}

#[test]
fn unmake_move_restores_lone_king_side_right() {
    assert_unmake_restores(Some("r3k2r/8/8/8/8/8/8/R3K2R w KQkq - 0 1"), Move::new(Square::H1, Square::H2));
}

#[test]
fn unmake_move_restores_lone_queen_side_right() {
    assert_unmake_restores(Some("r3k2r/8/8/8/8/8/8/R3K2R b KQkq - 0 1"), Move::new(Square::A8, Square::A7));
}

#[test]
fn unmake_move_restores_capturing_promotion() {
    assert_unmake_restores(
        Some("3r3k/4P3/8/8/8/8/8/K7 w - - 0 1"),
        Move::with_promotion(Square::E7, Square::D8, Piece::Knight),
    );
}

#[test]
fn unmake_move_restores_start() {
    assert_unmake_restores(None, Move::new(Square::D2, Square::D4));
}

#[test]
fn unmake_move_restores_castling_kingside() {
    assert_unmake_restores(Some("k7/8/8/8/8/8/8/4K2R w K - 0 1"), Move::new(Square::E1, Square::G1));
}

#[test]
fn unmake_move_restores_castling_queenside() {
    assert_unmake_restores(Some("k7/8/8/8/8/8/8/R3K3 w K - 0 1"), Move::new(Square::E1, Square::C1));
}

#[test]
fn unmake_move_restores_en_passant() {
    assert_unmake_restores(Some("k7/8/8/5Pp1/8/8/8/7K w - g6 0 1"), Move::new(Square::F5, Square::G6));
}

#[test]
fn unmake_move_restores_capture() {
    assert_unmake_restores(
        Some("r3k2r/p1ppqpb1/bn2pnp1/3PN3/1p2P3/2N2Q1p/PPPBBPPP/R3K2R w KQkq - 0 1"),
        Move::new(Square::E5, Square::G6),
    );
}

#[test]
fn unmake_move_restores_promotion() {
    assert_unmake_restores(
        Some("8/8/3P4/8/k7/8/4p2K/8 b - - 0 3"),
        Move::with_promotion(Square::E2, Square::E1, Piece::Queen),
    );
}

#[test]
fn castling_moves_the_rook() {
    let mut position = Position::from_fen("k7/8/8/8/8/8/8/4K2R w K - 0 1").unwrap();
    position.make_move(Move::new(Square::E1, Square::G1));
    assert_eq!(position.is_piece_at(Square::F1, Side::White), Some(Piece::Rook));
    assert_eq!(position.is_piece_at(Square::G1, Side::White), Some(Piece::King));
    assert!(!position.state.castling_rights.white_king_side);
}

#[test]
fn en_passant_removes_the_pawn() {
    let mut position = Position::from_fen("k7/8/8/5Pp1/8/8/8/7K w - g6 0 1").unwrap();
    position.make_move(Move::new(Square::F5, Square::G6));
    assert_eq!(position.is_piece_at(Square::G5, Side::Black), None);
    assert_eq!(position.is_piece_at(Square::G6, Side::White), Some(Piece::Pawn));
}

#[test]
fn cannot_move_from_an_empty_square() {
    let position = Position::start();
    assert!(!position.can_make_move(Move::new(Square::D4, Square::D5)));
    assert!(!position.can_make_move(Move::new(Square::D7, Square::D5)));
}

#[test]
fn validate_position_after_moves() {
    let mut position =
        Position::from_fen("r3k2r/p1pPqPb1/Bn2PnP1/3PN3/1p2P3/2N4P/PPPBBPPP/R3K2R w KQkq - 0 1").unwrap();
    let mve = Move::new(Square::E1, Square::D1);
    position.make_move(mve);
    assert_eq!(position.validate_position(mve), Ok(()));
}

#[test]
fn validate_position_missing_king() {
    let position = Position::from_fen("8/8/8/8/8/8/8/K7 w - - 0 1").unwrap();
    let mve = Move::new(Square::A1, Square::A2);
    assert_eq!(position.validate_position(mve), Err("Black king missing".to_string()));
}

#[test]
fn hash_restored_by_unmake_of_quiet_moves() {
    let mut position = Position::start();
    let start_hash = position.zobrist_hash;
    let undo1 = position.make_move(Move::new(Square::E2, Square::E4));
    let undo2 = position.make_move(Move::new(Square::E7, Square::E5));
    assert_ne!(position.zobrist_hash, start_hash);
    position.unmake_move(undo2).unwrap();
    position.unmake_move(undo1).unwrap();
    assert_eq!(position.zobrist_hash, start_hash);
}

#[test]
fn fen_round_trip_kiwipete() {
    let fen = "r3k2r/p1ppqpb1/bn2pnp1/3PN3/1p2P3/2N2Q1p/PPPBBPPP/R3K2R w KQkq - 0 1";
    assert_eq!(Position::from_fen(fen).unwrap().to_fen(), fen);
}

#[test]
fn fen_round_trip_random() {
    let fen = "8/8/8/4k3/8/3P4/5K2/r7 w - - 1 1";
    assert_eq!(Position::from_fen(fen).unwrap().to_fen(), fen);
}

#[test]
fn fen_of_start_position() {
    assert_eq!(
        Position::start().to_fen(),
        "rnbqkbnr/pppppppp/8/8/8/8/PPPPPPPP/RNBQKBNR w KQkq - 0 1"
    );
    assert_eq!(
        Position::from_fen("rnbqkbnr/pppppppp/8/8/8/8/PPPPPPPP/RNBQKBNR w KQkq - 0 1").unwrap(),
        Position::start()
    );
}

#[test]
fn fen_errors() {
    assert_eq!(Position::from_fen("8/8/8 w - - 0"), Err(FenParseError::NumFields(5)));
    assert!(matches!(
        Position::from_fen("8/8/8/8/8/8/8/7x w - - 0 1"),
        Err(FenParseError::PiecePlacement(_, _))
    ));
    assert!(matches!(Position::from_fen("8/8/8/8/8/8/8/7K x - - 0 1"), Err(FenParseError::SideToMove(_))));
    assert!(matches!(
        Position::from_fen("8/8/8/8/8/8/8/7K w abc - 0 1"),
        Err(FenParseError::CastlingRights(_, _))
    ));
    assert!(matches!(
        Position::from_fen("8/8/8/8/8/8/8/7K w - abc 0 1"),
        Err(FenParseError::EnPassantTarget(_))
    ));
}

#[test]
fn algebraic_start_moves_generated() {
    let move_gen = MoveGen::new();
    let moves = move_gen.all_pieces.gen_moves(&Position::start());
    assert_eq!(moves.len(), 20);
}

#[test]
fn make_move_keeps_hash_consistent() {
    let moves = [
        Move::new(Square::F3, Square::H3),
        Move::new(Square::C7, Square::C5),
        Move::new(Square::D5, Square::C6),
        Move::new(Square::B6, Square::C4),
        Move::new(Square::E1, Square::D1),
    ];
    let mut position =
        Position::from_fen("r3k2r/p1ppqpb1/bn2pnp1/3PN3/1p2P3/2N2Q1p/PPPBBPPP/R3K2R w KQkq - 0 1").unwrap();
    let mut history = Vec::new();
    for mve in moves {
        let before = position;
        let undo = position.make_move(mve);
        history.push((before, undo));
        let fen = position.to_fen();
        let from_scratch = Position::from_fen(&fen).unwrap();
        assert_eq!(position.zobrist_hash, from_scratch.zobrist_hash);
    }
    while let Some((before, undo)) = history.pop() {
        position.unmake_move(undo).unwrap();
        assert_eq!(position, before);
    }
}

#[test]
fn unmake_restores_hash_after_castling_and_en_passant() {
    let cases = [
        ("r3k2r/8/8/8/8/8/8/R3K2R w KQkq - 0 1", Move::new(Square::E1, Square::G1)),
        ("k7/8/8/5Pp1/8/8/8/7K w - g6 0 1", Move::new(Square::F5, Square::G6)),
        ("r3k2r/p1ppqpb1/bn2pnp1/3PN3/1p2P3/2N2Q1p/PPPBBPPP/R3K2R w KQkq - 0 1", Move::new(Square::E5, Square::G6)),
    ];
    for (fen, mve) in cases {
        let position = Position::from_fen(fen).unwrap();
        let mut moved = position;
        let undo = moved.make_move(mve);
        moved.unmake_move(undo).unwrap();
        assert_eq!(moved, position);
    }
}

#[test]
fn piece_locs_of_start() {
    let locs = Position::start().piece_locs();
    assert_eq!(locs.len(), 32);
    assert_eq!(locs[0], (Piece::Pawn, Side::White, Square::A2));
    assert_eq!(locs[8], (Piece::Knight, Side::White, Square::B1));
    assert_eq!(locs[15], (Piece::King, Side::White, Square::E1));
    assert_eq!(locs[31], (Piece::King, Side::Black, Square::E8));
}

#[test]
fn from_fen_refuses_placement_past_last_square() {
    let got = Position::from_fen("8/8/8/8/8/8/8/8/k w - - 0 1");
    assert!(matches!(got, Err(FenParseError::PiecePlacement(_, 16))));
}
