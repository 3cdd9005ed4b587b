use flying_fish::bitboard::{BitBoard, Square};
use flying_fish::move_gen::hyperbola_quintessence::HyperbolaQuintessence;
use flying_fish::move_gen::leaping_pieces::LeapingPiecesMoveGen;
use flying_fish::move_gen::MoveGen;
use flying_fish::position::{Move, Piece, Position, Side};

fn squares(sqs: &[Square]) -> BitBoard {
    BitBoard::from_squares(sqs)
}

#[test]
fn rank_moves_cases() {
    let hq = HyperbolaQuintessence::new();
    let cases: Vec<(Square, BitBoard, BitBoard)> = vec![
        (Square::H4, squares(&[]), squares(&[Square::A4, Square::B4, Square::C4, Square::D4, Square::E4, Square::F4, Square::G4])),
        (Square::D4, squares(&[Square::B4]), squares(&[Square::B4, Square::C4, Square::E4, Square::F4, Square::G4, Square::H4])),
        (Square::D4, squares(&[Square::A4, Square::B4]), squares(&[Square::B4, Square::C4, Square::E4, Square::F4, Square::G4, Square::H4])),
        (Square::B4, squares(&[Square::D4, Square::E4, Square::H4]), squares(&[Square::A4, Square::C4, Square::D4])),
        (Square::D4, squares(&[Square::A4, Square::F4]), squares(&[Square::A4, Square::B4, Square::C4, Square::E4, Square::F4])),
        (Square::D4, squares(&[Square::C4, Square::E4]), squares(&[Square::C4, Square::E4])),
    ];
    for (square, occupancy, want) in cases {
        assert_eq!(hq.get_rank_moves(occupancy, square), want);
    }
}

#[test]
fn sliding_moves_cases() {
    let hq = HyperbolaQuintessence::new();
    let cases: Vec<(Piece, Square, BitBoard, BitBoard)> = vec![
        (
            Piece::Bishop,
            Square::D4,
            squares(&[]),
            squares(&[Square::A1, Square::B2, Square::C3, Square::E5, Square::F6, Square::G7, Square::H8, Square::C5, Square::B6, Square::A7, Square::E3, Square::F2, Square::G1]),
        ),
        (
            Piece::Bishop,
            Square::D4,
            squares(&[Square::B2, Square::A7, Square::E5]),
            squares(&[Square::B2, Square::C3, Square::E5, Square::C5, Square::B6, Square::A7, Square::E3, Square::F2, Square::G1]),
        ),
        (
            Piece::Bishop,
            Square::D4,
            squares(&[Square::B2, Square::A7, Square::E5, Square::A1, Square::B1, Square::F8, Square::G6, Square::C4]),
            squares(&[Square::B2, Square::C3, Square::E5, Square::C5, Square::B6, Square::A7, Square::E3, Square::F2, Square::G1]),
        ),
        (
            Piece::Rook,
            Square::D4,
            squares(&[]),
            squares(&[Square::D1, Square::D2, Square::D3, Square::D5, Square::D6, Square::D7, Square::D8, Square::A4, Square::B4, Square::C4, Square::E4, Square::F4, Square::G4, Square::H4]),
        ),
        (
            Piece::Rook,
            Square::D4,
            squares(&[Square::A4, Square::D7, Square::F4, Square::D3]),
            squares(&[Square::D3, Square::D5, Square::D6, Square::D7, Square::A4, Square::B4, Square::C4, Square::E4, Square::F4]),
        ),
        (
            Piece::Rook,
            Square::D4,
            squares(&[Square::A4, Square::D7, Square::D8, Square::F4, Square::D3, Square::D2, Square::D1]),
            squares(&[Square::D3, Square::D5, Square::D6, Square::D7, Square::A4, Square::B4, Square::C4, Square::E4, Square::F4]),
        ),
        (
            Piece::Rook,
            Square::E3,
            squares(&[Square::E3]),
            squares(&[Square::E1, Square::E2, Square::E4, Square::E5, Square::E6, Square::E7, Square::E8, Square::A3, Square::B3, Square::C3, Square::D3, Square::F3, Square::G3, Square::H3]),
        ),
        (
            Piece::Queen,
            Square::D4,
            squares(&[Square::D5, Square::B2, Square::H4]),
            squares(&[
                Square::B2, Square::C3, Square::E5, Square::F6, Square::G7, Square::H8, Square::C5, Square::B6, Square::A7, Square::E3, Square::F2, Square::G1, Square::D1, Square::D2,
                Square::D3, Square::D5, Square::A4, Square::B4, Square::C4, Square::E4, Square::F4, Square::G4, Square::H4,
            ]),
        ),
    ];
    for (piece, square, occupancy, want) in cases {
        assert_eq!(hq.gen_moves(piece, square, occupancy), want);
    }
}

#[test]
fn knight_and_king_moves() {
    let lp = LeapingPiecesMoveGen::new();
    assert_eq!(
        lp.gen_knight_king_moves(Piece::Knight, Square::D4),
        squares(&[Square::B5, Square::C6, Square::E6, Square::F5, Square::B3, Square::C2, Square::E2, Square::F3])
    );
    assert_eq!(lp.gen_knight_king_moves(Piece::Knight, Square::A8), squares(&[Square::B6, Square::C7]));
    assert_eq!(lp.gen_knight_king_moves(Piece::Knight, Square::A4), squares(&[Square::B6, Square::C5, Square::C3, Square::B2]));
    assert_eq!(
        lp.gen_knight_king_moves(Piece::King, Square::D4),
        squares(&[Square::C5, Square::D5, Square::E5, Square::C4, Square::E4, Square::C3, Square::D3, Square::E3])
    );
    assert_eq!(lp.gen_knight_king_moves(Piece::King, Square::A8), squares(&[Square::A7, Square::B7, Square::B8]));
    assert_eq!(lp.gen_knight_king_moves(Piece::King, Square::C1), squares(&[Square::B1, Square::B2, Square::C2, Square::D2, Square::D1]));
}

#[test]
fn pawn_pushes_and_attacks() {
    let lp = LeapingPiecesMoveGen::new();
    assert_eq!(lp.gen_pawn_pushes(Square::D2, Side::White), squares(&[Square::D3, Square::D4]));
    assert_eq!(lp.gen_pawn_pushes(Square::B3, Side::White), squares(&[Square::B4]));
    assert_eq!(lp.gen_pawn_pushes(Square::G7, Side::White), squares(&[Square::G8]));
    assert_eq!(lp.gen_pawn_pushes(Square::G8, Side::White), squares(&[]));
    assert_eq!(lp.gen_pawn_pushes(Square::D7, Side::Black), squares(&[Square::D6, Square::D5]));
    assert_eq!(lp.gen_pawn_pushes(Square::B6, Side::Black), squares(&[Square::B5]));
    assert_eq!(lp.gen_pawn_pushes(Square::G2, Side::Black), squares(&[Square::G1]));
    assert_eq!(lp.gen_pawn_pushes(Square::G1, Side::Black), squares(&[]));
    assert_eq!(lp.gen_pawn_atks(Square::D2, Side::White), squares(&[Square::C3, Square::E3]));
    assert_eq!(lp.gen_pawn_atks(Square::A7, Side::White), squares(&[Square::B8]));
    assert_eq!(lp.gen_pawn_atks(Square::F1, Side::White), squares(&[Square::E2, Square::G2]));
    assert_eq!(lp.gen_pawn_atks(Square::D7, Side::Black), squares(&[Square::C6, Square::E6]));
    assert_eq!(lp.gen_pawn_atks(Square::A2, Side::Black), squares(&[Square::B1]));
    assert_eq!(lp.gen_pawn_atks(Square::F8, Side::Black), squares(&[Square::E7, Square::G7]));
}

#[test]
fn checkers_and_evasions() {
    let move_gen = MoveGen::new();
    // The black rook on e8 gives check to the white king on e1.
    let position = Position::from_fen("4r2k/8/8/8/8/8/8/4K3 w - - 0 1").unwrap();
    assert_eq!(move_gen.gen_checkers(&position), BitBoard::from_square(Square::E8));
    let moves = move_gen.all_pieces.gen_moves(&position);
    for m in moves.iter() {
        assert_eq!(m.src, Square::E1);
        assert_ne!(m.dest.to_u8() % 8, 4);
    }
    assert_eq!(moves.len(), 4);
}

#[test]
fn double_check_leaves_king_moves_only() {
    let move_gen = MoveGen::new();
    let position = Position::from_fen("4r2k/8/8/8/8/3n4/8/4K3 w - - 0 1").unwrap();
    assert_eq!(move_gen.gen_checkers(&position).num_squares_set(), 2);
    for m in move_gen.all_pieces.gen_moves(&position).iter() {
        assert_eq!(m.src, Square::E1);
    }
}

#[test]
fn pinned_piece_stays_on_its_ray() {
    let move_gen = MoveGen::new();
    // The white bishop on e2 is pinned by the rook on e8.
    let position = Position::from_fen("4r2k/8/8/8/8/8/4B3/4K3 w - - 0 1").unwrap();
    for m in move_gen.all_pieces.gen_moves(&position).iter() {
        assert_ne!(m.src, Square::E2);
    }
}

#[test]
fn generated_moves_include_promotions_and_castles() {
    let move_gen = MoveGen::new();
    let position = Position::from_fen("r3k2r/1P6/8/8/8/8/8/R3K2R w KQkq - 0 1").unwrap();
    let moves = move_gen.all_pieces.gen_moves(&position);
    assert!(moves.contains(&Move::new(Square::E1, Square::G1)));
    assert!(moves.contains(&Move::new(Square::E1, Square::C1)));
    assert!(moves.contains(&Move::with_promotion(Square::B7, Square::B8, Piece::Queen)));
    assert!(moves.contains(&Move::with_promotion(Square::B7, Square::A8, Piece::Knight)));
}

#[test]
fn move_gen_list_matches_all_pieces() {
    let move_gen = MoveGen::new();
    let position =
        Position::from_fen("r3k2r/p1ppqpb1/bn2pnp1/3PN3/1p2P3/2N2Q1p/PPPBBPPP/R3K2R w KQkq - 0 1").unwrap();
    let list = move_gen.gen_moves(&position);
    let all = move_gen.all_pieces.gen_moves(&position);
    assert_eq!(list.len(), 48);
    assert_eq!(list.to_vec(), all);
}

#[test]
fn magic_bitboard_finds_nothing_yet() {
    let magic = flying_fish::move_gen::magic_bitboard::MagicBitboard;
    assert!(magic.gen_moves(Piece::Rook, Square::D4, BitBoard::empty()).is_empty());
}

#[test]
fn king_cannot_step_back_along_a_check() {
    let move_gen = MoveGen::new();
    let white = Position::from_fen("4r2k/8/8/8/8/8/4K3/8 w - - 0 1").unwrap();
    let moves = move_gen.all_pieces.gen_moves(&white);
    assert!(!moves.contains(&Move::new(Square::E2, Square::E1)));
    assert!(!moves.contains(&Move::new(Square::E2, Square::E3)));
    assert_eq!(moves.len(), 6);
    let black = Position::from_fen("7K/4k3/8/8/8/8/8/4R3 b - - 0 1").unwrap();
    let moves = move_gen.all_pieces.gen_moves(&black);
    assert!(!moves.contains(&Move::new(Square::E7, Square::E8)));
    assert_eq!(moves.len(), 6);
}

#[test]
fn pinned_piece_cannot_block_a_check() {
    let move_gen = MoveGen::new();
    // The queen on e3 is pinned by the rook on e8 while the rook on a1 gives check.
    let position = Position::from_fen("4r2k/8/8/8/8/4Q3/8/r3K3 w - - 0 1").unwrap();
    let moves = move_gen.all_pieces.gen_moves(&position);
    assert!(!moves.contains(&Move::new(Square::E3, Square::C1)));
    for m in moves.iter() {
        assert_eq!(m.src, Square::E1);
    }
}

#[test]
fn castling_needs_empty_squares() {
    let move_gen = MoveGen::new();
    let blocked = Position::from_fen("4k3/8/8/8/8/8/8/RN2K1bR w KQ - 0 1").unwrap();
    let moves = move_gen.all_pieces.gen_moves(&blocked);
    assert!(!moves.contains(&Move::new(Square::E1, Square::C1)));
    assert!(!moves.contains(&Move::new(Square::E1, Square::G1)));
    let open = Position::from_fen("4k3/8/8/8/8/8/8/R3K2R w KQ - 0 1").unwrap();
    let moves = move_gen.all_pieces.gen_moves(&open);
    assert!(moves.contains(&Move::new(Square::E1, Square::C1)));
    assert!(moves.contains(&Move::new(Square::E1, Square::G1)));
}
