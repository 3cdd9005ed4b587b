use flying_fish::algebraic_notation::{move_to_algebraic_notation, AlgebraicNotationError};
use flying_fish::bitboard::Square;
use flying_fish::move_gen::MoveGen;
use flying_fish::position::{Move, Piece, Position};

const KIWIPETE: &str = "r3k2r/p1ppqpb1/bn2pnp1/3PN3/1p2P3/2N2Q1p/PPPBBPPP/R3K2R w KQkq - 0 1";
const KIWIPETE_BLACK: &str = "r3k2r/p1ppqpb1/bn2pnp1/3PN3/1p2P3/2N2Q1p/PPPBBPPP/R3K2R b KQkq - 0 1";

fn san(fen: &str, mve: Move) -> String {
    let move_gen = MoveGen::new();
    move_to_algebraic_notation(&Position::from_fen(fen).unwrap(), mve, &move_gen).unwrap()
}

#[test]
fn san_plain_moves() {
    assert_eq!(san(KIWIPETE, Move::new(Square::C3, Square::B5)), "Nb5");
    assert_eq!(san(KIWIPETE, Move::new(Square::B2, Square::B3)), "b3");
    assert_eq!(
        san("rnbqkbnr/pppppppp/8/8/8/8/PPPPPPPP/RNBQKBNR w KQkq - 0 1", Move::new(Square::D2, Square::D4)),
        "d4"
    );
}

#[test]
fn san_captures() {
    assert_eq!(san(KIWIPETE, Move::new(Square::E5, Square::G6)), "Nxg6");
    assert_eq!(san(KIWIPETE, Move::new(Square::D5, Square::E6)), "dxe6");
    assert_eq!(san("8/8/8/8/k2Pp3/8/8/7K b - d3 0 1", Move::new(Square::E4, Square::D3)), "exd3");
}

#[test]
fn san_castles() {
    assert_eq!(san(KIWIPETE, Move::new(Square::E1, Square::G1)), "O-O");
    assert_eq!(san(KIWIPETE, Move::new(Square::E1, Square::C1)), "O-O-O");
    assert_eq!(san(KIWIPETE_BLACK, Move::new(Square::E8, Square::G8)), "O-O");
    assert_eq!(san(KIWIPETE_BLACK, Move::new(Square::E8, Square::C8)), "O-O-O");
}

#[test]
fn san_promotion() {
    assert_eq!(
        san("8/8/3P4/8/k7/8/4p2K/8 b - - 0 3", Move::with_promotion(Square::E2, Square::E1, Piece::Queen)),
        "e1Q"
    );
}

#[test]
fn san_disambiguation() {
    assert_eq!(san("3R3R/8/8/8/8/8/8/K1k5 w - - 0 1", Move::new(Square::D8, Square::F8)), "Rdf8");
    assert_eq!(san("7R/8/8/8/7R/8/8/K1k5 w - - 0 1", Move::new(Square::H4, Square::H6)), "R4h6");
    assert_eq!(san("5Q1Q/8/7Q/8/8/8/8/K2k4 w - - 0 1", Move::new(Square::F8, Square::F6)), "Qf8f6");
    assert_eq!(san("5Q1Q/8/7Q/8/8/8/8/K2k4 w - - 0 1", Move::new(Square::H8, Square::F6)), "Qh8f6");
    assert_eq!(san("5Q1Q/8/7Q/8/8/8/8/K2k4 w - - 0 1", Move::new(Square::H6, Square::F6)), "Qh6f6");
}

#[test]
fn san_errors() {
    let move_gen = MoveGen::new();
    let position = Position::start();
    assert_eq!(
        move_to_algebraic_notation(&position, Move::new(Square::E4, Square::E5), &move_gen),
        Err(AlgebraicNotationError::NoPieceAtSrc("E4".to_string()))
    );
    assert_eq!(
        move_to_algebraic_notation(&position, Move::new(Square::E1, Square::E2), &move_gen),
        Err(AlgebraicNotationError::InvalidMove("e1".to_string()))
    );
}
