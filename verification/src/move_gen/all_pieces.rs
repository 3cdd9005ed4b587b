//! Legal move generation for every piece: attacked squares, checkers, pins, the king's
//! moves with castling, and the moves of the side to move.
use vstd::prelude::*;

use crate::bitboard::{aligned, bit_count, shift_val, BitBoard, Direction, Square};
use crate::move_gen::hyperbola_quintessence::HyperbolaQuintessence;
use crate::move_gen::leaping_pieces::{
    king_dirs, knight_dirs, leap_board, pawn_atk_dirs, pawn_dir, pawn_push_board, LeapingPiecesMoveGen,
};
use crate::position::{Move, Piece, Position, Side};

verus! {

/// Why a move could not be generated.
#[derive(Clone, Debug, PartialEq, Eq)]
pub enum MoveGenError {
    /// No piece stands on the square.
    NoPiece(String),
    /// A square is on a side's board but on none of its piece boards.
    InvalidSidesPieces(String),
}

/// The piece with number `i`: pawn, knight, bishop, rook, queen, king.
pub open spec fn kind_of(i: int) -> Piece {
    if i == 0 {
        Piece::Pawn
    } else if i == 1 {
        Piece::Knight
    } else if i == 2 {
        Piece::Bishop
    } else if i == 3 {
        Piece::Rook
    } else if i == 4 {
        Piece::Queen
    } else {
        Piece::King
    }
}

/// The piece with number `i`, for `i` from 0 to 5.
fn kind_at(i: u8) -> (r: Piece)
    ensures
        r == kind_of(i as int),
{
    if i == 0 {
        Piece::Pawn
    } else if i == 1 {
        Piece::Knight
    } else if i == 2 {
        Piece::Bishop
    } else if i == 3 {
        Piece::Rook
    } else if i == 4 {
        Piece::Queen
    } else {
        Piece::King
    }
}

/// The generator of every piece's moves: the leaping pieces' tables and the sliding
/// pieces' generator.
pub struct AllPiecesMoveGen {
    pub leaping_pieces: LeapingPiecesMoveGen,
    pub sliding_pieces: HyperbolaQuintessence,
}

/// The square with number `i`.
pub open spec fn sq_of(i: int) -> Square {
    Square::spec_from_idx(i)
}

impl AllPiecesMoveGen {
    /// Both generators hold their tables.
    pub open spec fn wf(&self) -> bool {
        self.leaping_pieces.wf() && self.sliding_pieces.wf()
    }

    /// The squares a piece of the kind and side on square number `s` attacks over the
    /// occupancy `o`.
    pub open spec fn attack_word(&self, kind: Piece, side: Side, s: int, o: u64) -> u64 {
        match kind {
            Piece::Knight => leap_board(s, knight_dirs()),
            Piece::King => leap_board(s, king_dirs()),
            Piece::Pawn => leap_board(s, pawn_atk_dirs(side)),
            _ => self.sliding_pieces.slider_word(kind, s, o),
        }
    }

    /// What the side's pieces of the kinds numbered below `k` on square number `t` attack
    /// over the occupancy `o`.
    pub open spec fn kinds_attacks(&self, p: Position, side: Side, o: u64, t: int, k: int) -> u64
        decreases k,
    {
        if k <= 0 {
            0
        } else {
            self.kinds_attacks(p, side, o, t, k - 1) | if p.pieces.board(kind_of(k - 1), side).has(sq_of(t)) {
                self.attack_word(kind_of(k - 1), side, t, o)
            } else {
                0
            }
        }
    }

    /// What the side's pieces on square number `t` attack over the occupancy `o`.
    pub open spec fn square_attacks(&self, p: Position, side: Side, o: u64, t: int) -> u64 {
        self.kinds_attacks(p, side, o, t, 6)
    }

    /// What the side's pieces on the squares numbered below `n` attack.
    pub open spec fn attacks_upto(&self, p: Position, side: Side, o: u64, n: int) -> u64
        decreases n,
    {
        if n <= 0 {
            0
        } else {
            self.attacks_upto(p, side, o, n - 1) | self.square_attacks(p, side, o, n - 1)
        }
    }

    /// The occupancy for the side's attacks: every piece but the other side's king, so
    /// that a king cannot hide behind itself from a slider.
    pub open spec fn attack_occupancy(p: Position, side: Side) -> u64 {
        (p.sides.white.0 | p.sides.black.0) & !p.pieces.board(Piece::King, side.opp()).0
    }

    /// Every square the side attacks.
    pub open spec fn attacked_word(&self, p: Position, side: Side) -> u64 {
        self.attacks_upto(p, side, Self::attack_occupancy(p, side), 64)
    }

    /// The generator of both kinds of pieces.
    pub fn new(leaping_pieces: LeapingPiecesMoveGen, sliding_pieces: HyperbolaQuintessence) -> (r: AllPiecesMoveGen)
        ensures
            r.leaping_pieces == leaping_pieces,
            r.sliding_pieces == sliding_pieces,
    {
        AllPiecesMoveGen { leaping_pieces, sliding_pieces }
    }

    /// The squares a piece of the kind and side on the square attacks.
    fn attacks_of(&self, kind: Piece, side: Side, square: Square, occupancy: BitBoard) -> (r: BitBoard)
        requires
            self.wf(),
        ensures
            r.0 == self.attack_word(kind, side, square.idx(), occupancy.0),
    {
        match kind {
            Piece::Knight | Piece::King => self.leaping_pieces.gen_knight_king_moves(kind, square),
            Piece::Bishop | Piece::Rook | Piece::Queen => self.sliding_pieces.gen_moves(kind, square, occupancy),
            Piece::Pawn => self.leaping_pieces.gen_pawn_atks(square, side),
        }
    }

    /// Every square the side's pieces attack, a king not shielding a square behind it
    /// from the side's sliders.
    pub fn gen_attacked_squares(&self, position: &Position, side: Side) -> (r: BitBoard)
        requires
            self.wf(),
        ensures
            r.0 == self.attacked_word(*position, side),
    {
        let occupancy = position.sides.get(Side::White).const_bit_or(position.sides.get(Side::Black)).const_bit_and(
            position.pieces.get(Piece::King).get(side.opposite_side()).const_bit_not(),
        );
        let mut attacked_squares = BitBoard::empty();
        let mut t: u8 = 0;
        while t < 64
            invariant
                self.wf(),
                t <= 64,
                occupancy.0 == Self::attack_occupancy(*position, side),
                attacked_squares.0 == self.attacks_upto(*position, side, occupancy.0, t as int),
            decreases 64 - t,
        {
            let sq = Square::from_u8(t);
            proof {
                Square::lemma_from_idx(t as int);
                Square::lemma_idx_injective(sq, sq_of(t as int));
            }
            let mut here = BitBoard::empty();
            let mut k: u8 = 0;
            while k < 6
                invariant
                    self.wf(),
                    k <= 6,
                    sq == sq_of(t as int),
                    sq.idx() == t,
                    here.0 == self.kinds_attacks(*position, side, occupancy.0, t as int, k as int),
                decreases 6 - k,
            {
                let kind = kind_at(k);
                let ghost before = here.0;
                if position.pieces.get(kind).get(side).is_square_set(sq) {
                    let a = self.attacks_of(kind, side, sq, occupancy);
                    here = here.const_bit_or(a);
                }
                proof {
                    assert(before | 0u64 == before) by (bit_vector);
                }
                k += 1;
            }
            attacked_squares = attacked_squares.const_bit_or(here);
            t += 1;
        }
        attacked_squares
    }
}

/// The number of the lowest square of the side's king board.
pub open spec fn king_idx(p: Position, side: Side) -> int {
    vstd::std_specs::bits::u64_trailing_zeros(p.pieces.board(Piece::King, side).0) as int
}

/// The bit of square number `i`.
pub open spec fn bit_of(i: int) -> u64 {
    1u64 << (i as u64)
}

impl AllPiecesMoveGen {
    /// The pieces of the other side, of the kinds numbered below `k` other than the king,
    /// that attack the side's king square over the full occupancy.
    pub open spec fn checkers_upto(&self, p: Position, k: int) -> u64
        decreases k,
    {
        let side = p.state.to_move;
        let o = p.sides.white.0 | p.sides.black.0;
        if k <= 0 {
            0
        } else {
            self.checkers_upto(p, k - 1) | if kind_of(k - 1) == Piece::King {
                0
            } else {
                self.attack_word(kind_of(k - 1), side, king_idx(p, side), o) & p.pieces.board(kind_of(k - 1), side.opp()).0
            }
        }
    }

    /// The pieces giving check to the side to move.
    pub open spec fn checkers_word(&self, p: Position) -> u64 {
        self.checkers_upto(p, 6)
    }

    /// The pieces of the other side that give check to the side to move: those a piece of
    /// their kind on the king's square would attack.
    pub fn get_checkers(&self, position: &Position) -> (r: BitBoard)
        requires
            self.wf(),
            position.pieces.board(Piece::King, position.state.to_move).0 != 0,
        ensures
            r.0 == self.checkers_word(*position),
    {
        let side = position.state.to_move;
        let opp_side = side.opposite_side();
        let king_square = position.pieces.get(Piece::King).get(side).get_lsb();
        let occupancy = position.sides.get(Side::White).const_bit_or(position.sides.get(Side::Black));
        let mut checkers = BitBoard::empty();
        let mut k: u8 = 0;
        while k < 6
            invariant
                self.wf(),
                k <= 6,
                side == position.state.to_move,
                opp_side == side.opp(),
                king_square.idx() == king_idx(*position, side),
                occupancy.0 == position.sides.white.0 | position.sides.black.0,
                checkers.0 == self.checkers_upto(*position, k as int),
            decreases 6 - k,
        {
            let kind = kind_at(k);
            let moves = match kind {
                Piece::King => BitBoard::empty(),
                _ => self.attacks_of(kind, side, king_square, occupancy),
            };
            let pieces = position.pieces.get(kind).get(opp_side);
            proof {
                let x = checkers.0;
                assert(x | (0u64 & pieces.0) == x | 0u64) by (bit_vector);
            }
            checkers = checkers.const_bit_or(moves.const_bit_and(pieces));
            k += 1;
        }
        checkers
    }

    /// The squares the king of the side on `ks` may move to over the squares the other
    /// side attacks, with castling across empty squares, before its own pieces are taken
    /// out.
    pub open spec fn king_moves_word(&self, p: Position, side: Side, ks: int, friendly: u64) -> u64 {
        let danger = BitBoard(self.attacked_word(p, side.opp()));
        let base = leap_board(ks, king_dirs()) & !danger.0;
        let occ = BitBoard(p.sides.white.0 | p.sides.black.0);
        let c = p.state.castling_rights;
        let free = |a: Square, b: Square| !occ.has(a) && !occ.has(b) && !danger.has(a) && !danger.has(b);
        if danger.has(sq_of(ks)) {
            base
        } else if ks == Square::E1.idx() {
            let g = if c.white_king_side && free(Square::F1, Square::G1) { base | bit_of(Square::G1.idx()) } else { base };
            if c.white_queen_side && free(Square::D1, Square::C1) && !occ.has(Square::B1) {
                g | bit_of(Square::C1.idx())
            } else {
                g
            }
        } else if ks == Square::E8.idx() {
            let g = if c.black_king_side && free(Square::F8, Square::G8) { base | bit_of(Square::G8.idx()) } else { base };
            if c.black_queen_side && free(Square::D8, Square::C8) && !occ.has(Square::B8) {
                g | bit_of(Square::C8.idx())
            } else {
                g
            }
        } else {
            base
        }
    }

    /// The king's moves: the squares next to it that the other side does not attack,
    /// and a castling when the king is not attacked, the right is held, the squares
    /// between king and rook are empty, and those the king passes are not attacked.
    pub fn gen_king_moves(&self, position: &Position, side: Side, king_square: Square, friendly_pieces: BitBoard) -> (r: BitBoard)
        requires
            self.wf(),
        ensures
            r.0 == self.king_moves_word(*position, side, king_square.idx(), friendly_pieces.0),
    {
        let moves = self.leaping_pieces.gen_knight_king_moves(Piece::King, king_square);
        let king_danger_squares = self.gen_attacked_squares(position, side.opposite_side());
        let mut moves = moves.const_bit_and(king_danger_squares.const_bit_not());
        let c = position.state.castling_rights;
        let occ = position.sides.get(Side::White).const_bit_or(position.sides.get(Side::Black));
        // Castling, across empty squares the other side does not attack.
        if !king_danger_squares.is_square_set(king_square) {
            if king_square == Square::E1 {
                if c.white_king_side && !occ.is_square_set(Square::F1) && !occ.is_square_set(Square::G1)
                    && !king_danger_squares.is_square_set(Square::F1) && !king_danger_squares.is_square_set(Square::G1) {
                    moves.set_square(Square::G1);
                }
                if c.white_queen_side && !occ.is_square_set(Square::D1) && !occ.is_square_set(Square::C1)
                    && !king_danger_squares.is_square_set(Square::D1) && !king_danger_squares.is_square_set(Square::C1)
                    && !occ.is_square_set(Square::B1) {
                    moves.set_square(Square::C1);
                }
            }
            if king_square == Square::E8 {
                if c.black_king_side && !occ.is_square_set(Square::F8) && !occ.is_square_set(Square::G8)
                    && !king_danger_squares.is_square_set(Square::F8) && !king_danger_squares.is_square_set(Square::G8) {
                    moves.set_square(Square::G8);
                }
                if c.black_queen_side && !occ.is_square_set(Square::D8) && !occ.is_square_set(Square::C8)
                    && !king_danger_squares.is_square_set(Square::D8) && !king_danger_squares.is_square_set(Square::C8)
                    && !occ.is_square_set(Square::B8) {
                    moves.set_square(Square::C8);
                }
            }
        }
        proof {
            Square::lemma_idx_injective(king_square, Square::E1);
            Square::lemma_idx_injective(king_square, Square::E8);
            Square::lemma_from_idx(king_square.idx());
            Square::lemma_idx_injective(king_square, sq_of(king_square.idx()));
        }
        moves
    }

    /// The pin ray of one pinner on square number `s`: its slider moves toward the king
    /// with its own square, within the king's ray.
    pub open spec fn pin_ray_of(&self, p: Position, side: Side, kind: Piece, s: int) -> u64 {
        let king_ray = self.sliding_pieces.slider_word(kind, king_idx(p, side), p.sides.of(side.opp()).0);
        (self.sliding_pieces.slider_word(kind, s, p.pieces.board(Piece::King, side).0) | bit_of(s)) & king_ray
    }

    /// The pinners of the kind's lines among the squares numbered below `n` whose rays
    /// hold exactly one of the side's pieces, their rays joined.
    pub open spec fn pin_rays_upto(&self, p: Position, side: Side, kind: Piece, n: int) -> u64
        decreases n,
    {
        if n <= 0 {
            0
        } else {
            self.pin_rays_upto(p, side, kind, n - 1) | self.pin_ray_step(p, side, kind, n - 1)
        }
    }

    /// The part one square adds to the pin rays of the kind's lines.
    pub open spec fn pin_ray_step(&self, p: Position, side: Side, kind: Piece, s: int) -> u64 {
        let king_ray = self.sliding_pieces.slider_word(kind, king_idx(p, side), p.sides.of(side.opp()).0);
        let possible = p.pieces.board(kind, side.opp()).0 | p.pieces.board(Piece::Queen, side.opp()).0;
        let ray = self.pin_ray_of(p, side, kind, s);
        if BitBoard(king_ray & possible).has(sq_of(s)) && bit_count(ray & p.sides.of(side).0, 64) == 1 {
            ray
        } else {
            0
        }
    }

    /// What the pinner, if any, on one square adds to the pin rays.
    fn pin_ray_at(&self, position: &Position, side: Side, kind: Piece, king_ray: BitBoard, pinners: BitBoard, pinner_square: Square) -> (r: BitBoard)
        requires
            self.wf(),
            kind == Piece::Rook || kind == Piece::Bishop,
            king_ray.0 == self.sliding_pieces.slider_word(kind, king_idx(*position, side), position.sides.of(side.opp()).0),
            pinners.0 == king_ray.0 & (position.pieces.board(kind, side.opp()).0 | position.pieces.board(Piece::Queen, side.opp()).0),
        ensures
            r.0 == self.pin_ray_step(*position, side, kind, pinner_square.idx()),
    {
        proof {
            Square::lemma_from_idx(pinner_square.idx());
            Square::lemma_idx_injective(pinner_square, sq_of(pinner_square.idx()));
        }
        if pinners.is_square_set(pinner_square) {
            let mut moves = self.sliding_pieces.gen_moves(kind, pinner_square, position.pieces.get(Piece::King).get(side));
            // The capture of the pinner stays in the ray.
            moves.set_square(pinner_square);
            let possible_pin_ray = moves.const_bit_and(king_ray);
            // Exactly one of the side's pieces in the ray is pinned; none means a check.
            if possible_pin_ray.const_bit_and(position.sides.get(side)).num_squares_set() == 1 {
                return possible_pin_ray;
            }
        }
        BitBoard::empty()
    }

    /// The rays of one kind of line (rook or bishop) along which a piece of the side is
    /// pinned to its king.
    fn pin_ray(&self, position: &Position, side: Side, kind: Piece, king_square: Square) -> (r: BitBoard)
        requires
            self.wf(),
            kind == Piece::Rook || kind == Piece::Bishop,
            king_square.idx() == king_idx(*position, side),
        ensures
            r.0 == self.pin_rays_upto(*position, side, kind, 64),
    {
        let opp_side = side.opposite_side();
        let pinner_occupancy = position.pieces.get(Piece::King).get(side);
        let king_ray_occupancy = position.sides.get(opp_side);
        let king_ray = self.sliding_pieces.gen_moves(kind, king_square, king_ray_occupancy);
        let possible_pinners = position.pieces.get(kind).get(opp_side).const_bit_or(position.pieces.get(Piece::Queen).get(opp_side));
        let pinners = king_ray.const_bit_and(possible_pinners);
        let friendly = position.sides.get(side);
        let mut pin_ray = BitBoard::empty();
        let mut s: u8 = 0;
        while s < 64
            invariant
                self.wf(),
                s <= 64,
                kind == Piece::Rook || kind == Piece::Bishop,
                opp_side == side.opp(),
                king_square.idx() == king_idx(*position, side),
                pinner_occupancy == position.pieces.board(Piece::King, side),
                king_ray.0 == self.sliding_pieces.slider_word(kind, king_idx(*position, side), position.sides.of(side.opp()).0),
                pinners.0 == king_ray.0 & (position.pieces.board(kind, side.opp()).0 | position.pieces.board(Piece::Queen, side.opp()).0),
                friendly == position.sides.of(side),
                pin_ray.0 == self.pin_rays_upto(*position, side, kind, s as int),
            decreases 64 - s,
        {
            let pinner_square = Square::from_u8(s);
            let step = self.pin_ray_at(position, side, kind, king_ray, pinners, pinner_square);
            pin_ray = pin_ray.const_bit_or(step);
            s += 1;
        }
        pin_ray
    }

    /// The rook-line and bishop-line rays along which a piece of the side is pinned to its
    /// king, each with the pinner's square.
    pub fn get_pin_rays(&self, position: &Position, side: Side) -> (r: (BitBoard, BitBoard))
        requires
            self.wf(),
            position.pieces.board(Piece::King, side).0 != 0,
        ensures
            r.0.0 == self.pin_rays_upto(*position, side, Piece::Rook, 64),
            r.1.0 == self.pin_rays_upto(*position, side, Piece::Bishop, 64),
    {
        let king_square = position.pieces.get(Piece::King).get(side).get_lsb();
        let rook_pin_ray = self.pin_ray(position, side, Piece::Rook, king_square);
        let bishop_pin_ray = self.pin_ray(position, side, Piece::Bishop, king_square);
        (rook_pin_ray, bishop_pin_ray)
    }
}

/// The moves from `src` to the squares of `d` numbered below `n`, in order of the squares;
/// a promoting pawn's move to each square comes four times, to a knight, a bishop, a rook
/// and a queen.
pub open spec fn moves_for_dests(src: Square, d: u64, promote: bool, n: int) -> Seq<Move>
    decreases n,
{
    if n <= 0 {
        seq![]
    } else {
        let dest = sq_of(n - 1);
        moves_for_dests(src, d, promote, n - 1) + if BitBoard(d).has(dest) {
            if promote {
                seq![
                    Move { src, dest, promotion: Some(Piece::Knight) },
                    Move { src, dest, promotion: Some(Piece::Bishop) },
                    Move { src, dest, promotion: Some(Piece::Rook) },
                    Move { src, dest, promotion: Some(Piece::Queen) },
                ]
            } else {
                seq![Move { src, dest, promotion: None }]
            }
        } else {
            seq![]
        }
    }
}

/// Appends the moves from `src` to each square of `dests`.
fn push_moves(moves: &mut Vec<Move>, src: Square, dests: BitBoard, promote: bool)
    ensures
        final(moves)@ == old(moves)@ + moves_for_dests(src, dests.0, promote, 64),
{
    let mut d: u8 = 0;
    while d < 64
        invariant
            d <= 64,
            moves@ == old(moves)@ + moves_for_dests(src, dests.0, promote, d as int),
        decreases 64 - d,
    {
        let dest = Square::from_u8(d);
        proof {
            Square::lemma_from_idx(d as int);
            Square::lemma_idx_injective(dest, sq_of(d as int));
        }
        if dests.is_square_set(dest) {
            if promote {
                moves.push(Move::with_promotion(src, dest, Piece::Knight));
                moves.push(Move::with_promotion(src, dest, Piece::Bishop));
                moves.push(Move::with_promotion(src, dest, Piece::Rook));
                moves.push(Move::with_promotion(src, dest, Piece::Queen));
            } else {
                moves.push(Move::new(src, dest));
            }
        }
        proof {
            assert(moves@ =~= old(moves)@ + moves_for_dests(src, dests.0, promote, d + 1));
        }
        d += 1;
    }
}

/// The two squares are on one line.
fn is_aligned(sq1: Square, sq2: Square) -> (r: bool)
    ensures
        r == aligned(sq1, sq2),
{
    let (r1, f1) = sq1.to_rank_file();
    let (r2, f2) = sq2.to_rank_file();
    r1 == r2 || f1 == f2 || r1 as i16 - r2 as i16 == f1 as i16 - f2 as i16 || r1 as i16 - r2 as i16 == f2 as i16 - f1 as i16
}

/// The occupancy after the side's pawn on square number `s` takes en passant on `t`: the
/// pawn gone from `s`, the pawn it takes gone from behind `t`, and a pawn on `t`.
pub open spec fn occupancy_after_en_passant(p: Position, side: Side, s: int, t: Square) -> u64 {
    let occ = p.sides.white.0 | p.sides.black.0;
    let victim = if side == Side::White { t.idx() - 8 } else { t.idx() + 8 };
    let o1 = occ & !bit_of(s);
    let o2 = if 0 <= victim < 64 { o1 & !bit_of(victim) } else { o1 };
    o2 | bit_of(t.idx())
}

impl AllPiecesMoveGen {
    /// After the side's pawn on square number `s` takes en passant on `t`, no rook, bishop
    /// or queen of the other side attacks the side's king (when it has one): taking the
    /// two pawns off one line may open it onto the king.
    pub open spec fn en_passant_safe(&self, p: Position, side: Side, s: int, t: Square) -> bool {
        let o = occupancy_after_en_passant(p, side, s, t);
        let ks = king_idx(p, side);
        let opp = side.opp();
        let straight = p.pieces.board(Piece::Rook, opp).0 | p.pieces.board(Piece::Queen, opp).0;
        let diagonal = p.pieces.board(Piece::Bishop, opp).0 | p.pieces.board(Piece::Queen, opp).0;
        p.pieces.board(Piece::King, side).0 == 0 || (self.sliding_pieces.slider_word(Piece::Rook, ks, o) & straight == 0
            && self.sliding_pieces.slider_word(Piece::Bishop, ks, o) & diagonal == 0)
    }

    /// The squares a pawn of the side on square number `s` may move to: pushes onto empty
    /// squares, a double push only past an empty square, and captures of the other side's
    /// pieces, or onto the en passant target when taking there leaves the king safe.
    pub open spec fn pawn_word(&self, p: Position, side: Side, s: int) -> u64 {
        let friendly = p.sides.of(side).0;
        let opp = p.sides.of(side.opp()).0;
        let pushes = pawn_push_board(s, side) & !opp;
        let all_except_self = shift_val((opp | friendly) & !bit_of(s), pawn_dir(side));
        let pushes = pushes & !all_except_self;
        let possible_atks = opp | match p.state.en_passant_target {
            Some(t) => if self.en_passant_safe(p, side, s, t) { bit_of(t.idx()) } else { 0 },
            None => 0,
        };
        pushes | (leap_board(s, pawn_atk_dirs(side)) & possible_atks)
    }
}

/// The word holds exactly the squares strictly between the two squares.
pub open spec fn is_between_word(w: u64, a: Square, b: Square) -> bool {
    forall|t: Square| #[trigger] BitBoard(w).has(t) == crate::bitboard::strictly_between(a, b, t)
}

/// A pawn of the side on square number `s` promotes with its next move.
pub open spec fn promotes(kind: Piece, side: Side, s: int) -> bool {
    kind == Piece::Pawn && ((side == Side::White && 48 <= s < 56) || (side == Side::Black && 8 <= s < 16))
}

impl AllPiecesMoveGen {
    /// The squares a piece of the kind of the side to move on square number `s` may move
    /// to, given the capture and push masks of a check and the pin rays.
    pub open spec fn dest_word(&self, p: Position, kind: Piece, s: int, capture: u64, push: u64, rook_pin: u64, bishop_pin: u64) -> u64 {
        let side = p.state.to_move;
        let friendly = p.sides.of(side).0;
        let occ = friendly | p.sides.of(side.opp()).0;
        let base = match kind {
            Piece::Knight => leap_board(s, knight_dirs()),
            Piece::King => self.king_moves_word(p, side, s, friendly),
            Piece::Pawn => self.pawn_word(p, side, s),
            _ => self.sliding_pieces.slider_word(kind, s, occ),
        };
        let w1 = base & !friendly;
        let w2 = if kind != Piece::King { w1 & (capture | push) } else { w1 };
        let w3 = if BitBoard(rook_pin).has(sq_of(s)) { w2 & rook_pin } else { w2 };
        if BitBoard(bishop_pin).has(sq_of(s)) { w3 & bishop_pin } else { w3 }
    }

    /// The moves of the side to move's pieces of the kind on the squares numbered below
    /// `n`.
    pub open spec fn kind_moves(&self, p: Position, kind: Piece, n: int, capture: u64, push: u64, rook_pin: u64, bishop_pin: u64) -> Seq<Move>
        decreases n,
    {
        if n <= 0 {
            seq![]
        } else {
            let side = p.state.to_move;
            self.kind_moves(p, kind, n - 1, capture, push, rook_pin, bishop_pin) + if p.pieces.board(kind, side).has(sq_of(n - 1)) {
                moves_for_dests(sq_of(n - 1), self.dest_word(p, kind, n - 1, capture, push, rook_pin, bishop_pin), promotes(kind, side, n - 1), 64)
            } else {
                seq![]
            }
        }
    }

    /// The moves of the side to move's pieces of the kinds numbered below `k`.
    pub open spec fn kinds_moves(&self, p: Position, k: int, capture: u64, push: u64, rook_pin: u64, bishop_pin: u64) -> Seq<Move>
        decreases k,
    {
        if k <= 0 {
            seq![]
        } else {
            self.kinds_moves(p, k - 1, capture, push, rook_pin, bishop_pin) + self.kind_moves(p, kind_of(k - 1), 64, capture, push, rook_pin, bishop_pin)
        }
    }

    /// The squares a capture may land on when the side to move is in check by one piece:
    /// the checker, and the en passant target when the checker is the pawn that just
    /// moved past it.
    pub open spec fn capture_mask(&self, p: Position) -> u64 {
        let checkers = self.checkers_word(p);
        if bit_count(checkers, 64) == 1 {
            match p.state.en_passant_target {
                Some(t) => {
                    let dir = if p.state.to_move.opp() == Side::White { Direction::IncRank } else { Direction::DecRank };
                    if leap_board(t.idx(), seq![seq![dir]]) == checkers { checkers | bit_of(t.idx()) } else { checkers }
                },
                None => checkers,
            }
        } else {
            !0u64
        }
    }

    /// The squares a non-capturing move may land on when the side to move is in check by
    /// one piece: between a sliding checker and the king.
    pub open spec fn push_mask(&self, p: Position) -> u64 {
        let checkers = self.checkers_word(p);
        if bit_count(checkers, 64) == 1 {
            let checker = sq_of(vstd::std_specs::bits::u64_trailing_zeros(checkers) as int);
            let king = sq_of(king_idx(p, p.state.to_move));
            match p.occupant(checker) {
                Some((k, _)) => if (k == Piece::Bishop || k == Piece::Rook || k == Piece::Queen) && aligned(checker, king) {
                    choose|w: u64| #[trigger] is_between_word(w, checker, king)
                } else {
                    0
                },
                None => 0,
            }
        } else {
            !0u64
        }
    }
}

impl AllPiecesMoveGen {
    /// The moves of the side to move: only the king's when two pieces give check, else
    /// each piece's moves within the check masks and its pin ray.
    pub open spec fn moves_spec(&self, p: Position) -> Seq<Move> {
        let side = p.state.to_move;
        let friendly = p.sides.of(side).0;
        let ks = king_idx(p, side);
        if bit_count(self.checkers_word(p), 64) > 1 {
            moves_for_dests(sq_of(ks), self.king_moves_word(p, side, ks, friendly) & !friendly, false, 64)
        } else {
            self.kinds_moves(
                p,
                6,
                self.capture_mask(p),
                self.push_mask(p),
                self.pin_rays_upto(p, side, Piece::Rook, 64),
                self.pin_rays_upto(p, side, Piece::Bishop, 64),
            )
        }
    }

    /// The squares a pawn of the side on the square may move to.
    fn pawn_dests(&self, position: &Position, side: Side, square: Square) -> (r: BitBoard)
        requires
            self.wf(),
        ensures
            r.0 == self.pawn_word(*position, side, square.idx()),
    {
        let friendly_pieces = position.sides.get(side);
        let opp_pieces = position.sides.get(side.opposite_side());
        // No push onto a piece of the other side.
        let pushes = self.leaping_pieces.gen_pawn_pushes(square, side).const_bit_and(opp_pieces.const_bit_not());
        // A blocked single push blocks the double push too.
        let mut all_pieces_except_self = opp_pieces.const_bit_or(friendly_pieces);
        all_pieces_except_self.clear_square(square);
        let shift_dir = if side == Side::White { Direction::IncRank } else { Direction::DecRank };
        let all_pieces_except_self = all_pieces_except_self.shift(shift_dir);
        let pushes = pushes.const_bit_and(all_pieces_except_self.const_bit_not());
        let mut possible_atks = opp_pieces;
        if let Some(ep_target) = position.state.en_passant_target {
            if self.en_passant_is_safe(position, side, square, ep_target) {
                possible_atks = possible_atks.const_bit_or(BitBoard::from_square(ep_target));
            } else {
                proof {
                    let x = possible_atks.0;
                    assert(x | 0u64 == x) by (bit_vector);
                }
            }
        } else {
            proof {
                let x = possible_atks.0;
                assert(x | 0u64 == x) by (bit_vector);
            }
        }
        let atks = self.leaping_pieces.gen_pawn_atks(square, side).const_bit_and(possible_atks);
        pushes.const_bit_or(atks)
    }

    /// Whether taking en passant on `t` with the side's pawn on the square leaves the king
    /// safe from the other side's rooks, bishops and queens.
    fn en_passant_is_safe(&self, position: &Position, side: Side, square: Square, t: Square) -> (r: bool)
        requires
            self.wf(),
        ensures
            r == self.en_passant_safe(*position, side, square.idx(), t),
    {
        let kings = position.pieces.get(Piece::King).get(side);
        if kings.is_empty() {
            return true;
        }
        let king_square = kings.get_lsb();
        let mut occupancy = position.sides.get(Side::White).const_bit_or(position.sides.get(Side::Black));
        occupancy.clear_square(square);
        let ti = t.to_u8();
        if side == Side::White {
            if ti >= 8 {
                occupancy.clear_square(Square::from_u8(ti - 8));
            }
        } else {
            if ti < 56 {
                occupancy.clear_square(Square::from_u8(ti + 8));
            }
        }
        occupancy.set_square(t);
        let opp = side.opposite_side();
        let straight = position.pieces.get(Piece::Rook).get(opp).const_bit_or(position.pieces.get(Piece::Queen).get(opp));
        let diagonal = position.pieces.get(Piece::Bishop).get(opp).const_bit_or(position.pieces.get(Piece::Queen).get(opp));
        let rook_rays = self.sliding_pieces.gen_moves(Piece::Rook, king_square, occupancy);
        let bishop_rays = self.sliding_pieces.gen_moves(Piece::Bishop, king_square, occupancy);
        rook_rays.const_bit_and(straight).0 == 0 && bishop_rays.const_bit_and(diagonal).0 == 0
    }

    /// The squares a piece of the kind of the side to move on the square may move to.
    fn dest_board(
        &self,
        position: &Position,
        kind: Piece,
        square: Square,
        capture_mask: BitBoard,
        push_mask: BitBoard,
        rook_pin_ray: BitBoard,
        bishop_pin_ray: BitBoard,
    ) -> (r: BitBoard)
        requires
            self.wf(),
        ensures
            r.0 == self.dest_word(*position, kind, square.idx(), capture_mask.0, push_mask.0, rook_pin_ray.0, bishop_pin_ray.0),
    {
        let side = position.state.to_move;
        let friendly_pieces = position.sides.get(side);
        let occupancy = friendly_pieces.const_bit_or(position.sides.get(side.opposite_side()));
        let moves_bb = match kind {
            Piece::Knight => self.leaping_pieces.gen_knight_king_moves(Piece::Knight, square),
            Piece::King => self.gen_king_moves(position, side, square, friendly_pieces),
            Piece::Pawn => self.pawn_dests(position, side, square),
            _ => self.sliding_pieces.gen_moves(kind, square, occupancy),
        };
        // No capture of one's own pieces.
        let mut moves_bb = moves_bb.const_bit_and(friendly_pieces.const_bit_not());
        // In check, only captures of the checker and blocks.
        if kind != Piece::King {
            moves_bb = moves_bb.const_bit_and(capture_mask.const_bit_or(push_mask));
        }
        proof {
            Square::lemma_from_idx(square.idx());
            Square::lemma_idx_injective(square, sq_of(square.idx()));
        }
        if rook_pin_ray.is_square_set(square) {
            moves_bb = moves_bb.const_bit_and(rook_pin_ray);
        }
        if bishop_pin_ray.is_square_set(square) {
            moves_bb = moves_bb.const_bit_and(bishop_pin_ray);
        }
        moves_bb
    }

    /// The capture and push masks of a check.
    fn check_masks(&self, position: &Position, checkers: BitBoard) -> (r: (BitBoard, BitBoard))
        requires
            self.wf(),
            checkers.0 == self.checkers_word(*position),
            position.pieces.board(Piece::King, position.state.to_move).0 != 0,
        ensures
            r.0.0 == self.capture_mask(*position),
            r.1.0 == self.push_mask(*position),
    {
        let side = position.state.to_move;
        if checkers.num_squares_set() != 1 {
            assert(!0u64 == u64::MAX) by (bit_vector);
            return (BitBoard::full(), BitBoard::full());
        }
        proof {
            crate::bitboard::lemma_bit_count_bound(checkers.0, 64);
        }
        let mut capture_mask = checkers;
        if let Some(ep_target) = position.state.en_passant_target {
            let ep_dir = if side.opposite_side() == Side::White { Direction::IncRank } else { Direction::DecRank };
            let dirs: Vec<Vec<Direction>> = vec![vec![ep_dir]];
            proof {
                assert(crate::bitboard::dir_lists(dirs@) =~~= seq![seq![ep_dir]]);
            }
            let ep_src_bb = BitBoard::from_square_shifts(ep_target, &dirs);
            if ep_src_bb.const_equals(checkers) {
                capture_mask = capture_mask.const_bit_or(BitBoard::from_square(ep_target));
            }
        }
        let checker_square = checkers.get_lsb();
        let king_square = position.pieces.get(Piece::King).get(side).get_lsb();
        proof {
            Square::lemma_from_idx(checker_square.idx());
            Square::lemma_idx_injective(checker_square, sq_of(checker_square.idx()));
            Square::lemma_from_idx(king_square.idx());
            Square::lemma_idx_injective(king_square, sq_of(king_square.idx()));
        }
        let push_mask = match position.is_piece_at_no_side(checker_square) {
            Some((checker_piece_type, _)) => {
                if checker_piece_type.is_slider() && is_aligned(checker_square, king_square) {
                    let ray = BitBoard::from_ray_excl(checker_square, king_square);
                    proof {
                        assert(is_between_word(ray.0, checker_square, king_square));
                        let w = choose|w: u64| #[trigger] is_between_word(w, checker_square, king_square);
                        assert(is_between_word(w, checker_square, king_square));
                        assert forall|t: Square| BitBoard(w).has(t) == ray.has(t) by {}
                        BitBoard::lemma_ext(BitBoard(w), ray);
                    }
                    ray
                } else {
                    BitBoard::empty()
                }
            },
            None => BitBoard::empty(),
        };
        (capture_mask, push_mask)
    }

    /// The moves of the side to move that do not leave its king in check: with two
    /// checkers only king moves, with one only captures of the checker, blocks and king
    /// moves, pinned pieces only along their pin, and a pawn reaching the last rank once
    /// for each promotion.
    pub fn gen_moves(&self, position: &Position) -> (r: Vec<Move>)
        requires
            self.wf(),
            position.pieces.board(Piece::King, position.state.to_move).0 != 0,
        ensures
            r@ == self.moves_spec(*position),
    {
        let side = position.state.to_move;
        let friendly_pieces = position.sides.get(side);
        let checkers = self.get_checkers(position);
        let (rook_pin_ray, bishop_pin_ray) = self.get_pin_rays(position, side);
        let mut moves: Vec<Move> = Vec::new();
        // With more than one checker only the king may move.
        if checkers.num_squares_set() > 1 {
            let king_square = position.pieces.get(Piece::King).get(side).get_lsb();
            let moves_bb = self.gen_king_moves(position, side, king_square, friendly_pieces).const_bit_and(friendly_pieces.const_bit_not());
            push_moves(&mut moves, king_square, moves_bb, false);
            proof {
                Square::lemma_from_idx(king_square.idx());
                Square::lemma_idx_injective(king_square, sq_of(king_square.idx()));
                assert(moves@ =~= self.moves_spec(*position));
            }
            return moves;
        }
        let (capture_mask, push_mask) = self.check_masks(position, checkers);
        let mut k: u8 = 0;
        while k < 6
            invariant
                self.wf(),
                k <= 6,
                side == position.state.to_move,
                moves@ == self.kinds_moves(*position, k as int, capture_mask.0, push_mask.0, rook_pin_ray.0, bishop_pin_ray.0),
            decreases 6 - k,
        {
            let kind = kind_at(k);
            let pieces = position.pieces.get(kind).get(side);
            let ghost start = moves@;
            let mut s: u8 = 0;
            while s < 64
                invariant
                    self.wf(),
                    s <= 64,
                    k < 6,
                    kind == kind_of(k as int),
                    side == position.state.to_move,
                    pieces == position.pieces.board(kind, side),
                    moves@ == start + self.kind_moves(*position, kind, s as int, capture_mask.0, push_mask.0, rook_pin_ray.0, bishop_pin_ray.0),
                decreases 64 - s,
            {
                let piece_square = Square::from_u8(s);
                proof {
                    Square::lemma_from_idx(s as int);
                    Square::lemma_idx_injective(piece_square, sq_of(s as int));
                }
                let ghost before = moves@;
                if pieces.is_square_set(piece_square) {
                    let moves_bb = self.dest_board(position, kind, piece_square, capture_mask, push_mask, rook_pin_ray, bishop_pin_ray);
                    // A pawn one step from the last rank promotes, to each of four pieces.
                    let promote = kind == Piece::Pawn && ((side == Side::White && s >= 48 && s < 56) || (side == Side::Black && s >= 8 && s < 16));
                    push_moves(&mut moves, piece_square, moves_bb, promote);
                }
                proof {
                    assert(moves@ =~= start + self.kind_moves(*position, kind, s + 1, capture_mask.0, push_mask.0, rook_pin_ray.0, bishop_pin_ray.0));
                }
                s += 1;
            }
            k += 1;
        }
        moves
    }
}

} // verus!
