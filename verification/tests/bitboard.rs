use flying_fish::bitboard::{BitBoard, Square};

#[test]
fn bitboard_test_bitboard_from_squares() {
    let got = BitBoard::from_squares(&[Square::A1, Square::A2, Square::E4]);
    let want = BitBoard(0b0000000000000000000000000000000000010000000000000000000100000001);
    assert_eq!(got, want);
}

#[test]
fn test_bitboard_from_squares() {
    let got = BitBoard::from_squares(&[Square::A1, Square::A2, Square::E4]);
    let want = BitBoard(0b0000000000000000000000000000000000010000000000000000000100000001);
    assert_eq!(got, want);
}

#[test]
fn test_debug() {
    let got = BitBoard::from_squares(&[
        Square::A8,
        Square::B7,
        Square::C6,
        Square::D5,
        Square::E4,
        Square::F3,
        Square::G2,
        Square::H1,
    ]);
    let want = "X.......\n.X......\n..X.....\n...X....\n....X...\n.....X..\n......X.\n.......X";
    assert_eq!(got.to_grid_string(), want);
}

#[test]
fn bitboard_test_debug() {
    let got = BitBoard::from_squares(&[
        Square::A8,
        Square::B7,
        Square::C6,
        Square::D5,
        Square::E4,
        Square::F3,
        Square::G2,
        Square::H1,
    ]);
    let want = "X.......\n.X......\n..X.....\n...X....\n....X...\n.....X..\n......X.\n.......X";
    assert_eq!(got.to_grid_string(), want);
}

#[test]
fn bitboard_square_set_and_clear() {
    let mut bb = BitBoard::empty();
    bb.set_square(Square::D4);
    assert!(bb.is_square_set(Square::D4));
    assert!(!bb.is_square_set(Square::D5));
    assert_eq!(bb.num_squares_set(), 1);
    bb.move_piece(Square::D4, Square::H8);
    assert_eq!(bb, BitBoard::from_square(Square::H8));
    bb.clear_square(Square::H8);
    assert!(bb.is_empty());
}

#[test]
fn bitboard_to_squares_in_order() {
    let bb = BitBoard::from_squares(&[Square::H8, Square::A1, Square::E4]);
    assert_eq!(bb.to_squares(), vec![Square::A1, Square::E4, Square::H8]);
    assert_eq!(bb.get_lsb(), Square::A1);
}

#[test]
fn bitboard_swap_bytes_mirrors_ranks() {
    let bb = BitBoard::from_squares(&[Square::A1, Square::C2]);
    assert_eq!(bb.swap_bytes(), BitBoard::from_squares(&[Square::A8, Square::C7]));
}

#[test]
fn bitboard_ray_between_squares() {
    assert_eq!(
        BitBoard::from_ray_excl(Square::A1, Square::D4),
        BitBoard::from_squares(&[Square::B2, Square::C3])
    );
    assert_eq!(
        BitBoard::from_ray_excl(Square::A1, Square::A4),
        BitBoard::from_squares(&[Square::A2, Square::A3])
    );
    assert_eq!(BitBoard::from_ray_excl(Square::A1, Square::B2), BitBoard::empty());
}

#[test]
fn square_perspectives() {
    let white = Square::list_white_perspective();
    let black = Square::list_black_perspective();
    assert_eq!(white[0], Square::A8);
    assert_eq!(white[63], Square::H1);
    assert_eq!(black[0], Square::H1);
    assert_eq!(black[63], Square::A8);
    assert_eq!(Square::E2.abs_diff(Square::E4), 16);
    assert_eq!(Square::B1.flip(), Square::B8);
}
