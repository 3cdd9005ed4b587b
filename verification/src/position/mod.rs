//! The position: where the pieces stand, whose move it is, and the rights and clocks that
//! come with it; making and unmaking moves.
use vstd::prelude::*;

use crate::bitboard::{shift_dest, BitBoard, Direction, Square};
use crate::bits::{bit_set, group_bits};

pub mod checks;
pub mod fen;
pub mod make_unmake;
pub mod zobrist_hash;

use self::zobrist_hash::{
    en_passant_term, full_hash, lemma_xor_laws, piece_key,
    ZobristHash, ZOBRIST_BLACK_TO_MOVE_KEY, ZOBRIST_CASTLING_KEYS,
};

verus! {

broadcast use group_bits;

/// Why a position operation was refused.
#[derive(Clone, Debug, PartialEq, Eq)]
pub enum PositionError {
    /// A character that names no piece.
    FromCharPiece(char),
    /// No piece stands on the source square of a move.
    MoveNoPiece(String),
    /// No piece stands on the square to clear.
    RemoveNoPiece(String),
    /// The piece to move belongs to the side not to move.
    MoveNotToMove(String, String, String),
    /// The half move clock has reached fifty.
    GameOverHalfMoveClock(String),
    /// There is no move to take back.
    NoMoveToUndo,
    /// A pawn reached the last rank without a promotion piece.
    PawnMoveMissingPromotion(Move),
}

/// One of the two players.
#[derive(Clone, Copy, Debug, PartialEq, Eq, Structural, Hash)]
pub enum Side {
    White,
    Black,
}

impl Side {
    /// The other player.
    pub open spec fn opp(self) -> Side {
        match self {
            Side::White => Side::Black,
            Side::Black => Side::White,
        }
    }

    /// 0 for White, 1 for Black.
    pub open spec fn idx(self) -> int {
        match self {
            Side::White => 0,
            Side::Black => 1,
        }
    }

    /// The other player.
    pub fn opposite_side(self) -> (r: Side)
        ensures
            r == self.opp(),
    {
        if self == Side::White {
            Side::Black
        } else {
            Side::White
        }
    }
}

/// A kind of piece.
#[derive(Clone, Copy, Debug, PartialEq, Eq, Structural, Hash)]
pub enum Piece {
    Pawn,
    Knight,
    Bishop,
    Rook,
    Queen,
    King,
}

impl Piece {
    /// 0 for a pawn up to 5 for a king, in the order of the variants.
    pub open spec fn idx(self) -> int {
        match self {
            Piece::Pawn => 0,
            Piece::Knight => 1,
            Piece::Bishop => 2,
            Piece::Rook => 3,
            Piece::Queen => 4,
            Piece::King => 5,
        }
    }

    /// The lowercase letter of the piece in FEN and algebraic notation.
    pub open spec fn letter(self) -> char {
        match self {
            Piece::Pawn => 'p',
            Piece::Knight => 'n',
            Piece::Bishop => 'b',
            Piece::Rook => 'r',
            Piece::Queen => 'q',
            Piece::King => 'k',
        }
    }

    /// Bishops, rooks and queens slide along lines.
    pub fn is_slider(&self) -> (r: bool)
        ensures
            r == (*self == Piece::Bishop || *self == Piece::Rook || *self == Piece::Queen),
    {
        match self {
            Piece::Pawn | Piece::Knight | Piece::King => false,
            Piece::Bishop | Piece::Rook | Piece::Queen => true,
        }
    }

    /// The piece's number, 0 for a pawn up to 5 for a king.
    pub fn index(self) -> (r: usize)
        ensures
            r == self.idx(),
    {
        match self {
            Piece::Pawn => 0,
            Piece::Knight => 1,
            Piece::Bishop => 2,
            Piece::Rook => 3,
            Piece::Queen => 4,
            Piece::King => 5,
        }
    }

    /// The lowercase letter of the piece.
    pub fn to_char(self) -> (r: char)
        ensures
            r == self.letter(),
    {
        match self {
            Piece::Pawn => 'p',
            Piece::Knight => 'n',
            Piece::Bishop => 'b',
            Piece::Rook => 'r',
            Piece::Queen => 'q',
            Piece::King => 'k',
        }
    }

    /// The piece a lowercase letter names.
    pub fn try_from_char(value: char) -> (r: Result<Piece, PositionError>)
        ensures
            match r {
                Ok(p) => p.letter() == value,
                Err(e) => e == PositionError::FromCharPiece(value) && forall|p: Piece|
                    p.letter() != value,
            },
    {
        match value {
            'p' => Ok(Piece::Pawn),
            'n' => Ok(Piece::Knight),
            'b' => Ok(Piece::Bishop),
            'r' => Ok(Piece::Rook),
            'q' => Ok(Piece::Queen),
            'k' => Ok(Piece::King),
            _ => Err(PositionError::FromCharPiece(value)),
        }
    }
}

/// A move from one square to another, with the piece a pawn promotes to.
#[derive(Clone, Copy, Debug, PartialEq, Eq, Structural, Hash)]
pub struct Move {
    pub src: Square,
    pub dest: Square,
    pub promotion: Option<Piece>,
}

impl Move {
    /// A move without promotion.
    pub fn new(src: Square, dest: Square) -> (r: Move)
        ensures
            r == (Move { src, dest, promotion: None }),
    {
        Self { src, dest, promotion: None }
    }

    /// A pawn move that promotes.
    pub fn with_promotion(src: Square, dest: Square, promotion: Piece) -> (r: Move)
        ensures
            r == (Move { src, dest, promotion: Some(promotion) }),
    {
        Self { src, dest, promotion: Some(promotion) }
    }
}

/// A board for each side.
#[derive(Clone, Copy, Debug, PartialEq, Eq, Structural)]
pub struct Sides {
    pub white: BitBoard,
    pub black: BitBoard,
}

impl Sides {
    /// The board of the side.
    pub open spec fn of(self, side: Side) -> BitBoard {
        match side {
            Side::White => self.white,
            Side::Black => self.black,
        }
    }

    /// The same boards but the side's, which is `bb`.
    pub open spec fn with(self, side: Side, bb: BitBoard) -> Sides {
        match side {
            Side::White => Sides { white: bb, ..self },
            Side::Black => Sides { black: bb, ..self },
        }
    }

    /// Two empty boards.
    pub fn new() -> (r: Sides)
        ensures
            r.white.0 == 0,
            r.black.0 == 0,
    {
        Self { white: BitBoard::empty(), black: BitBoard::empty() }
    }

    /// The board of the side.
    pub fn get(&self, side: Side) -> (r: BitBoard)
        ensures
            r == self.of(side),
    {
        match side {
            Side::White => self.white,
            Side::Black => self.black,
        }
    }

    /// The board of the side, to change in place.
    pub fn get_mut(&mut self, side: Side) -> (r: &mut BitBoard)
        ensures
            *r == old(self).of(side),
            *final(self) == old(self).with(side, *final(r)),
    {
        match side {
            Side::White => &mut self.white,
            Side::Black => &mut self.black,
        }
    }
}

/// A pair of boards, one per side, for each kind of piece.
#[derive(Clone, Copy, Debug, PartialEq, Eq, Structural)]
pub struct Pieces {
    pub pawns: Sides,
    pub knights: Sides,
    pub bishops: Sides,
    pub rooks: Sides,
    pub queens: Sides,
    pub kings: Sides,
}

impl Pieces {
    /// The boards of the kind of piece.
    pub open spec fn of(self, piece: Piece) -> Sides {
        match piece {
            Piece::Pawn => self.pawns,
            Piece::Knight => self.knights,
            Piece::Bishop => self.bishops,
            Piece::Rook => self.rooks,
            Piece::Queen => self.queens,
            Piece::King => self.kings,
        }
    }

    /// The board of the pieces of one kind and side.
    pub open spec fn board(self, piece: Piece, side: Side) -> BitBoard {
        self.of(piece).of(side)
    }

    /// The same boards but those of the kind, which are `s`.
    pub open spec fn with(self, piece: Piece, s: Sides) -> Pieces {
        match piece {
            Piece::Pawn => Pieces { pawns: s, ..self },
            Piece::Knight => Pieces { knights: s, ..self },
            Piece::Bishop => Pieces { bishops: s, ..self },
            Piece::Rook => Pieces { rooks: s, ..self },
            Piece::Queen => Pieces { queens: s, ..self },
            Piece::King => Pieces { kings: s, ..self },
        }
    }

    /// Twelve empty boards.
    pub fn new() -> (r: Pieces)
        ensures
            forall|p: Piece, s: Side| r.board(p, s).0 == 0,
    {
        Self {
            pawns: Sides::new(),
            knights: Sides::new(),
            bishops: Sides::new(),
            rooks: Sides::new(),
            queens: Sides::new(),
            kings: Sides::new(),
        }
    }

    /// The boards of the kind of piece.
    pub fn get(&self, piece: Piece) -> (r: &Sides)
        ensures
            *r == self.of(piece),
    {
        match piece {
            Piece::Pawn => &self.pawns,
            Piece::Knight => &self.knights,
            Piece::Bishop => &self.bishops,
            Piece::Rook => &self.rooks,
            Piece::Queen => &self.queens,
            Piece::King => &self.kings,
        }
    }

    /// The boards of the kind of piece, to change in place.
    pub fn get_mut(&mut self, piece: Piece) -> (r: &mut Sides)
        ensures
            *r == old(self).of(piece),
            *final(self) == old(self).with(piece, *final(r)),
    {
        match piece {
            Piece::Pawn => &mut self.pawns,
            Piece::Knight => &mut self.knights,
            Piece::Bishop => &mut self.bishops,
            Piece::Rook => &mut self.rooks,
            Piece::Queen => &mut self.queens,
            Piece::King => &mut self.kings,
        }
    }
}

/// Which castlings each side may still make.
#[derive(Clone, Copy, Debug, PartialEq, Eq, Structural)]
pub struct CastlingRights {
    pub white_king_side: bool,
    pub white_queen_side: bool,
    pub black_king_side: bool,
    pub black_queen_side: bool,
}

impl CastlingRights {
    /// Every castling still allowed, as at the start of a game.
    pub fn start() -> (r: CastlingRights)
        ensures
            r.white_king_side && r.white_queen_side && r.black_king_side && r.black_queen_side,
    {
        Self { white_king_side: true, white_queen_side: true, black_king_side: true, black_queen_side: true }
    }

    /// The given rights.
    pub fn new(
        white_king_side: bool,
        white_queen_side: bool,
        black_king_side: bool,
        black_queen_side: bool,
    ) -> (r: CastlingRights)
        ensures
            r == (CastlingRights { white_king_side, white_queen_side, black_king_side, black_queen_side }),
    {
        Self { white_king_side, white_queen_side, black_king_side, black_queen_side }
    }
}

/// Everything about a position besides where the pieces stand.
#[derive(Clone, Copy, Debug, PartialEq, Eq, Structural)]
pub struct State {
    pub to_move: Side,
    pub half_move_clock: u8,
    pub en_passant_target: Option<Square>,
    pub castling_rights: CastlingRights,
    pub full_move_counter: u8,
}

impl State {
    /// The state at the start of a game.
    pub fn start() -> (r: State)
        ensures
            r.to_move == Side::White,
            r.half_move_clock == 0,
            r.en_passant_target is None,
            r.castling_rights == (CastlingRights { white_king_side: true, white_queen_side: true, black_king_side: true, black_queen_side: true }),
            r.full_move_counter == 1,
    {
        Self {
            to_move: Side::White,
            half_move_clock: 0,
            en_passant_target: None,
            castling_rights: CastlingRights::start(),
            full_move_counter: 1,
        }
    }
}


/// The board with the square's bit set (`on`) or cleared.
pub open spec fn with_bit(b: BitBoard, sq: Square, on: bool) -> BitBoard {
    if on {
        BitBoard(b.0 | (1u64 << (sq.idx() as u64)))
    } else {
        BitBoard(b.0 & !(1u64 << (sq.idx() as u64)))
    }
}

/// Setting or clearing a bit changes that square only.
pub broadcast proof fn lemma_with_bit(b: BitBoard, sq: Square, on: bool, t: Square)
    ensures
        #[trigger] with_bit(b, sq, on).has(t) == if t == sq { on } else { b.has(t) },
{
    Square::lemma_idx_injective(t, sq);
}

/// What a move changed, kept to take the move back.
#[derive(Clone, Copy, Debug, PartialEq, Eq, Structural)]
pub struct UnmakeMoveState {
    pub mve: Move,
    pub piece_moved: Piece,
    pub captured_piece: Option<Piece>,
    pub castling_rights: CastlingRights,
    pub en_passant_target: Option<Square>,
    pub half_move_clock: u8,
}

/// A chess position: the boards of the sides and of the pieces, the state, and the hash.
#[derive(Clone, Copy, Debug, PartialEq, Eq, Structural)]
pub struct Position {
    pub state: State,
    pub sides: Sides,
    pub pieces: Pieces,
    pub zobrist_hash: ZobristHash,
}

impl Position {
    /// The kind of the side's piece on the square, looking at the kinds in order.
    pub open spec fn piece_on(self, sq: Square, side: Side) -> Option<Piece> {
        if self.pieces.board(Piece::Pawn, side).has(sq) {
            Some(Piece::Pawn)
        } else if self.pieces.board(Piece::Knight, side).has(sq) {
            Some(Piece::Knight)
        } else if self.pieces.board(Piece::Bishop, side).has(sq) {
            Some(Piece::Bishop)
        } else if self.pieces.board(Piece::Rook, side).has(sq) {
            Some(Piece::Rook)
        } else if self.pieces.board(Piece::Queen, side).has(sq) {
            Some(Piece::Queen)
        } else if self.pieces.board(Piece::King, side).has(sq) {
            Some(Piece::King)
        } else {
            None
        }
    }

    /// The piece on the square and its side, White's looked at first.
    pub open spec fn occupant(self, sq: Square) -> Option<(Piece, Side)> {
        match self.piece_on(sq, Side::White) {
            Some(p) => Some((p, Side::White)),
            None => match self.piece_on(sq, Side::Black) {
                Some(p) => Some((p, Side::Black)),
                None => None,
            },
        }
    }

    /// The boards agree: a side's board holds exactly the squares of its pieces, no square
    /// holds two pieces, and no square is on both sides' boards.
    pub open spec fn wf(self) -> bool {
        &&& forall|sq: Square, s: Side| #[trigger] self.sides.of(s).has(sq) == (self.piece_on(sq, s) is Some)
        &&& forall|sq: Square, p1: Piece, p2: Piece, s: Side|
            #[trigger] self.pieces.board(p1, s).has(sq) && #[trigger] self.pieces.board(p2, s).has(sq) ==> p1 == p2
        &&& forall|sq: Square| !(#[trigger] self.sides.white.has(sq) && self.sides.black.has(sq))
    }

    /// The stored hash is the hash of the pieces and state.
    pub open spec fn hash_ok(self) -> bool {
        self.zobrist_hash.0 == full_hash(self.pieces, self.state)
    }

    /// The position with one piece's bit set or cleared on its side's board, on its own
    /// board, and in the hash.
    pub open spec fn spec_toggle(self, sq: Square, piece: Piece, side: Side, on: bool) -> Position {
        Position {
            sides: self.sides.with(side, with_bit(self.sides.of(side), sq, on)),
            pieces: self.pieces.with(piece, self.pieces.of(piece).with(side, with_bit(self.pieces.board(piece, side), sq, on))),
            zobrist_hash: ZobristHash(self.zobrist_hash.0 ^ piece_key(piece, side, sq)),
            ..self
        }
    }

    /// The position with a piece moved: taken off `src`, then put on `dest`.
    pub open spec fn spec_move_piece(self, src: Square, dest: Square, piece: Piece, side: Side) -> Position {
        self.spec_toggle(src, piece, side, false).spec_toggle(dest, piece, side, true)
    }

    /// The position at the start of a game.
    pub fn start() -> (r: Position)
        ensures
            r.state == (State { to_move: Side::White, half_move_clock: 0, en_passant_target: None, castling_rights: CastlingRights { white_king_side: true, white_queen_side: true, black_king_side: true, black_queen_side: true }, full_move_counter: 1 }),
            r.sides == (Sides { white: BitBoard(0xFFFF), black: BitBoard(0xFFFF_0000_0000_0000) }),
            r.pieces.pawns == (Sides { white: BitBoard(0xFF00), black: BitBoard(0x00FF_0000_0000_0000) }),
            r.pieces.knights == (Sides { white: BitBoard(0x42), black: BitBoard(0x4200_0000_0000_0000) }),
            r.pieces.bishops == (Sides { white: BitBoard(0x24), black: BitBoard(0x2400_0000_0000_0000) }),
            r.pieces.rooks == (Sides { white: BitBoard(0x81), black: BitBoard(0x8100_0000_0000_0000) }),
            r.pieces.queens == (Sides { white: BitBoard(0x08), black: BitBoard(0x0800_0000_0000_0000) }),
            r.pieces.kings == (Sides { white: BitBoard(0x10), black: BitBoard(0x1000_0000_0000_0000) }),
            r.wf(),
            r.hash_ok(),
    {
        let state = State::start();
        let sides = Sides { white: BitBoard::from_val(0xFFFF), black: BitBoard::from_val(0xFFFF_0000_0000_0000) };
        let pieces = Pieces {
            pawns: Sides { white: BitBoard::from_val(0xFF00), black: BitBoard::from_val(0x00FF_0000_0000_0000) },
            knights: Sides { white: BitBoard::from_val(0x42), black: BitBoard::from_val(0x4200_0000_0000_0000) },
            bishops: Sides { white: BitBoard::from_val(0x24), black: BitBoard::from_val(0x2400_0000_0000_0000) },
            rooks: Sides { white: BitBoard::from_val(0x81), black: BitBoard::from_val(0x8100_0000_0000_0000) },
            queens: Sides { white: BitBoard::from_val(0x08), black: BitBoard::from_val(0x0800_0000_0000_0000) },
            kings: Sides { white: BitBoard::from_val(0x10), black: BitBoard::from_val(0x1000_0000_0000_0000) },
        };
        let zobrist_hash = ZobristHash::calculate(&pieces, &state);
        let r = Position { state, sides, pieces, zobrist_hash };
        proof {
            assert forall|i: u64| i < 64 implies {
                &&& bit_set(0xFFFFu64, i) == (bit_set(0xFF00u64, i) || bit_set(0x42u64, i) || bit_set(0x24u64, i) || bit_set(0x81u64, i) || bit_set(0x08u64, i) || bit_set(0x10u64, i))
                &&& bit_set(0xFFFF_0000_0000_0000u64, i) == (bit_set(0x00FF_0000_0000_0000u64, i) || bit_set(0x4200_0000_0000_0000u64, i) || bit_set(0x2400_0000_0000_0000u64, i) || bit_set(0x8100_0000_0000_0000u64, i) || bit_set(0x0800_0000_0000_0000u64, i) || bit_set(0x1000_0000_0000_0000u64, i))
                &&& !(bit_set(0xFFFFu64, i) && bit_set(0xFFFF_0000_0000_0000u64, i))
                &&& (bit_set(0xFF00u64, i) as int) + (bit_set(0x42u64, i) as int) + (bit_set(0x24u64, i) as int) + (bit_set(0x81u64, i) as int) + (bit_set(0x08u64, i) as int) + (bit_set(0x10u64, i) as int) <= 1
                &&& (bit_set(0x00FF_0000_0000_0000u64, i) as int) + (bit_set(0x4200_0000_0000_0000u64, i) as int) + (bit_set(0x2400_0000_0000_0000u64, i) as int) + (bit_set(0x8100_0000_0000_0000u64, i) as int) + (bit_set(0x0800_0000_0000_0000u64, i) as int) + (bit_set(0x1000_0000_0000_0000u64, i) as int) <= 1
            } by {
                lemma_start_bits(i);
            }
        }
        r
    }

    /// The kind of the side's piece on the square.
    pub fn is_piece_at(&self, square: Square, side: Side) -> (r: Option<Piece>)
        ensures
            r == self.piece_on(square, side),
    {
        if self.pieces.pawns.get(side).is_square_set(square) {
            return Some(Piece::Pawn);
        }
        if self.pieces.knights.get(side).is_square_set(square) {
            return Some(Piece::Knight);
        }
        if self.pieces.bishops.get(side).is_square_set(square) {
            return Some(Piece::Bishop);
        }
        if self.pieces.rooks.get(side).is_square_set(square) {
            return Some(Piece::Rook);
        }
        if self.pieces.queens.get(side).is_square_set(square) {
            return Some(Piece::Queen);
        }
        if self.pieces.kings.get(side).is_square_set(square) {
            return Some(Piece::King);
        }
        None
    }

    /// The piece on the square and its side.
    pub fn is_piece_at_no_side(&self, square: Square) -> (r: Option<(Piece, Side)>)
        ensures
            r == self.occupant(square),
    {
        if let Some(piece) = self.is_piece_at(square, Side::White) {
            return Some((piece, Side::White));
        }
        if let Some(piece) = self.is_piece_at(square, Side::Black) {
            return Some((piece, Side::Black));
        }
        None
    }

    /// The move lands on a piece of the side not to move.
    pub fn is_capture(&self, mve: &Move) -> (r: bool)
        ensures
            r == self.sides.of(self.state.to_move.opp()).has(mve.dest),
    {
        let opp_pieces = self.sides.get(self.state.to_move.opposite_side());
        opp_pieces.is_square_set(mve.dest)
    }

    /// Puts a piece of the side on a square where the side has none.
    pub fn add_piece(&mut self, square: Square, piece: Piece, side: Side)
        requires
            old(self).piece_on(square, side) is None,
        ensures
            *final(self) == old(self).spec_toggle(square, piece, side, true),
    {
        self.sides.get_mut(side).set_square(square);
        self.pieces.get_mut(piece).get_mut(side).set_square(square);
        self.zobrist_hash.add_piece(square, piece, side);
    }

    /// Takes a piece of the side off a square where the side has one.
    pub fn remove_piece(&mut self, square: Square, piece: Piece, side: Side)
        requires
            old(self).piece_on(square, side) is Some,
        ensures
            *final(self) == old(self).spec_toggle(square, piece, side, false),
    {
        self.sides.get_mut(side).clear_square(square);
        self.pieces.get_mut(piece).get_mut(side).clear_square(square);
        self.zobrist_hash.remove_piece(square, piece, side);
    }

    /// Moves a piece of the side to a square where the side has none.
    pub fn move_piece(&mut self, src_square: Square, dest_square: Square, piece: Piece, side: Side)
        requires
            old(self).piece_on(src_square, side) is Some,
            old(self).piece_on(dest_square, side) is None,
        ensures
            *final(self) == old(self).spec_move_piece(src_square, dest_square, piece, side),
    {
        self.sides.get_mut(side).move_piece(src_square, dest_square);
        self.pieces.get_mut(piece).get_mut(side).move_piece(src_square, dest_square);
        self.zobrist_hash.move_piece(src_square, dest_square, piece, side);
    }
}

/// The bits of the start position's boards.
proof fn lemma_start_bits(i: u64)
    requires
        i < 64,
    ensures
        bit_set(0xFFFFu64, i) == (bit_set(0xFF00u64, i) || bit_set(0x42u64, i) || bit_set(0x24u64, i) || bit_set(0x81u64, i) || bit_set(0x08u64, i) || bit_set(0x10u64, i)),
        bit_set(0xFFFF_0000_0000_0000u64, i) == (bit_set(0x00FF_0000_0000_0000u64, i) || bit_set(0x4200_0000_0000_0000u64, i) || bit_set(0x2400_0000_0000_0000u64, i) || bit_set(0x8100_0000_0000_0000u64, i) || bit_set(0x0800_0000_0000_0000u64, i) || bit_set(0x1000_0000_0000_0000u64, i)),
        !(bit_set(0xFFFFu64, i) && bit_set(0xFFFF_0000_0000_0000u64, i)),
        (bit_set(0xFF00u64, i) as int) + (bit_set(0x42u64, i) as int) + (bit_set(0x24u64, i) as int) + (bit_set(0x81u64, i) as int) + (bit_set(0x08u64, i) as int) + (bit_set(0x10u64, i) as int) <= 1,
        (bit_set(0x00FF_0000_0000_0000u64, i) as int) + (bit_set(0x4200_0000_0000_0000u64, i) as int) + (bit_set(0x2400_0000_0000_0000u64, i) as int) + (bit_set(0x8100_0000_0000_0000u64, i) as int) + (bit_set(0x0800_0000_0000_0000u64, i) as int) + (bit_set(0x1000_0000_0000_0000u64, i) as int) <= 1,
{
    assert(
        (bit_set(0xFFFFu64, i) == (bit_set(0xFF00u64, i) || bit_set(0x42u64, i) || bit_set(0x24u64, i) || bit_set(0x81u64, i) || bit_set(0x08u64, i) || bit_set(0x10u64, i)))
        && (bit_set(0xFFFF_0000_0000_0000u64, i) == (bit_set(0x00FF_0000_0000_0000u64, i) || bit_set(0x4200_0000_0000_0000u64, i) || bit_set(0x2400_0000_0000_0000u64, i) || bit_set(0x8100_0000_0000_0000u64, i) || bit_set(0x0800_0000_0000_0000u64, i) || bit_set(0x1000_0000_0000_0000u64, i)))
        && !(bit_set(0xFFFFu64, i) && bit_set(0xFFFF_0000_0000_0000u64, i))
        && !(bit_set(0xFF00u64, i) && (bit_set(0x42u64, i) || bit_set(0x24u64, i) || bit_set(0x81u64, i) || bit_set(0x08u64, i) || bit_set(0x10u64, i)))
        && !(bit_set(0x42u64, i) && (bit_set(0x24u64, i) || bit_set(0x81u64, i) || bit_set(0x08u64, i) || bit_set(0x10u64, i)))
        && !(bit_set(0x24u64, i) && (bit_set(0x81u64, i) || bit_set(0x08u64, i) || bit_set(0x10u64, i)))
        && !(bit_set(0x81u64, i) && (bit_set(0x08u64, i) || bit_set(0x10u64, i)))
        && !(bit_set(0x08u64, i) && bit_set(0x10u64, i))
        && !(bit_set(0x00FF_0000_0000_0000u64, i) && (bit_set(0x4200_0000_0000_0000u64, i) || bit_set(0x2400_0000_0000_0000u64, i) || bit_set(0x8100_0000_0000_0000u64, i) || bit_set(0x0800_0000_0000_0000u64, i) || bit_set(0x1000_0000_0000_0000u64, i)))
        && !(bit_set(0x4200_0000_0000_0000u64, i) && (bit_set(0x2400_0000_0000_0000u64, i) || bit_set(0x8100_0000_0000_0000u64, i) || bit_set(0x0800_0000_0000_0000u64, i) || bit_set(0x1000_0000_0000_0000u64, i)))
        && !(bit_set(0x2400_0000_0000_0000u64, i) && (bit_set(0x8100_0000_0000_0000u64, i) || bit_set(0x0800_0000_0000_0000u64, i) || bit_set(0x1000_0000_0000_0000u64, i)))
        && !(bit_set(0x8100_0000_0000_0000u64, i) && (bit_set(0x0800_0000_0000_0000u64, i) || bit_set(0x1000_0000_0000_0000u64, i)))
        && !(bit_set(0x0800_0000_0000_0000u64, i) && bit_set(0x1000_0000_0000_0000u64, i))
    ) by (bit_vector)
        requires
            i < 64,
    ;
}

/// The square one step from `sq` in `dir`.
pub open spec fn step_sq(sq: Square, dir: Direction) -> Square {
    Square::spec_from_idx(shift_dest(sq.idx(), dir))
}

/// The square one step from `sq` in `dir`, found as the only square of the shifted board.
fn step_square(sq: Square, dir: Direction) -> (r: Square)
    requires
        shift_dest(sq.idx(), dir) >= 0,
    ensures
        r == step_sq(sq, dir),
        r.idx() == shift_dest(sq.idx(), dir),
{
    let bb = BitBoard::from_square(sq).shift(dir);
    let ghost d = shift_dest(sq.idx(), dir);
    proof {
        crate::bitboard::lemma_shift_single(sq.idx() as u64, dir);
        Square::lemma_from_idx(d);
        assert(bb.has(Square::spec_from_idx(d)));
    }
    let sqs = bb.to_squares();
    proof {
        assert(sqs@.contains(Square::spec_from_idx(d)));
        assert(bb.has(sqs@[0]));
        Square::lemma_idx_injective(sqs@[0], Square::spec_from_idx(d));
    }
    sqs[0]
}

/// The direction pawns of the side advance in.
pub open spec fn forward(side: Side) -> Direction {
    if side == Side::White { Direction::IncRank } else { Direction::DecRank }
}

/// The direction pawns of the side advance in, reversed.
pub open spec fn backward(side: Side) -> Direction {
    if side == Side::White { Direction::DecRank } else { Direction::IncRank }
}

/// The squares of the first or the last rank.
pub open spec fn on_end_rank(sq: Square) -> bool {
    sq.idx() >= 56 || sq.idx() <= 7
}

/// The rook's source and destination squares for a king castling to `dest`.
pub open spec fn castle_rook(dest: Square) -> (Square, Square) {
    if dest == Square::C1 {
        (Square::A1, Square::D1)
    } else if dest == Square::G1 {
        (Square::H1, Square::F1)
    } else if dest == Square::C8 {
        (Square::A8, Square::D8)
    } else {
        (Square::H8, Square::F8)
    }
}

/// The number of the castling right: White's king side 0, queen side 1, Black's 2 and 3.
pub open spec fn right_held(c: CastlingRights, k: int) -> bool {
    if k == 0 {
        c.white_king_side
    } else if k == 1 {
        c.white_queen_side
    } else if k == 2 {
        c.black_king_side
    } else {
        c.black_queen_side
    }
}

/// The rights with right `k` taken away.
pub open spec fn without_right(c: CastlingRights, k: int) -> CastlingRights {
    if k == 0 {
        CastlingRights { white_king_side: false, ..c }
    } else if k == 1 {
        CastlingRights { white_queen_side: false, ..c }
    } else if k == 2 {
        CastlingRights { black_king_side: false, ..c }
    } else {
        CastlingRights { black_queen_side: false, ..c }
    }
}

impl Position {
    /// The position with `k` folded into the hash.
    pub open spec fn spec_flip(self, k: u64) -> Position {
        Position { zobrist_hash: ZobristHash(self.zobrist_hash.0 ^ k), ..self }
    }

    /// The position with the state replaced.
    pub open spec fn spec_with_state(self, state: State) -> Position {
        Position { state, ..self }
    }

    /// When `cond` holds and right `k` is held: the right taken away and its key folded
    /// into the hash.
    pub open spec fn spec_lose_right(self, k: int, cond: bool) -> Position {
        if cond && right_held(self.state.castling_rights, k) {
            self.spec_with_state(State { castling_rights: without_right(self.state.castling_rights, k), ..self.state }).spec_flip(ZOBRIST_CASTLING_KEYS[k])
        } else {
            self
        }
    }

    /// The move takes a pawn en passant.
    pub open spec fn is_en_passant(self, m: Move) -> bool {
        self.state.en_passant_target == Some(m.dest) && self.piece_on(m.src, self.state.to_move) == Some(Piece::Pawn)
    }

    /// The position after the side-to-move key and the old en passant key are folded in
    /// and the move counter is advanced: the first stage of every move.
    pub open spec fn stage_common(self) -> Position {
        let counter = if self.state.to_move == Side::Black {
            (self.state.full_move_counter + 1) as u8
        } else {
            self.state.full_move_counter
        };
        let p = self.spec_with_state(State { full_move_counter: counter, ..self.state }).spec_flip(ZOBRIST_BLACK_TO_MOVE_KEY);
        p.spec_flip(en_passant_term(self.state.en_passant_target))
    }

    /// The position after an en passant capture.
    pub open spec fn spec_make_en_passant(self, m: Move) -> Position {
        let side = self.state.to_move;
        let p = self.stage_common().spec_move_piece(m.src, m.dest, Piece::Pawn, side).spec_toggle(step_sq(m.dest, backward(side)), Piece::Pawn, side.opp(), false);
        p.spec_with_state(State { en_passant_target: None, to_move: side.opp(), ..p.state })
    }

    /// The position after the clocks, the captured piece and the en passant target of an
    /// ordinary move are handled, before the moving piece moves.
    pub open spec fn stage_captured(self, m: Move) -> Position {
        let side = self.state.to_move;
        let piece = self.piece_on(m.src, side).unwrap();
        let captured = self.piece_on(m.dest, side.opp());
        let p1 = self.stage_common();
        let clock = if piece == Piece::Pawn || captured is Some { 0u8 } else { (self.state.half_move_clock + 1) as u8 };
        let p2 = p1.spec_with_state(State { to_move: side.opp(), half_move_clock: clock, ..p1.state });
        let p3 = match captured {
            Some(cp) => {
                let q = p2.spec_toggle(m.dest, cp, side.opp(), false);
                if cp == Piece::Rook {
                    q.spec_rook_captured_rights(m.dest)
                } else {
                    q
                }
            },
            None => p2,
        };
        if piece == Piece::Pawn && m.src.abs_diff_spec(m.dest) == 16 {
            let t = step_sq(m.src, forward(side));
            p3.spec_with_state(State { en_passant_target: Some(t), ..p3.state }).spec_flip(en_passant_term(Some(t)))
        } else {
            p3.spec_with_state(State { en_passant_target: None, ..p3.state })
        }
    }

    /// The position after the castling rights of a king or rook move are handled and, for
    /// a castling, the rook has moved: the stage before the moving piece moves.
    pub open spec fn stage_before_move(self, m: Move) -> Position {
        let side = self.state.to_move;
        let piece = self.piece_on(m.src, side).unwrap();
        let p = self.stage_captured(m);
        let p1 = if piece == Piece::King {
            let q = p.spec_king_moved_rights(side);
            if m.src.abs_diff_spec(m.dest) == 2 {
                q.spec_move_piece(castle_rook(m.dest).0, castle_rook(m.dest).1, Piece::Rook, side)
            } else {
                q
            }
        } else {
            p
        };
        if piece == Piece::Rook {
            p1.spec_rook_moved_rights(m.src)
        } else {
            p1
        }
    }

    /// A rook taken on a corner takes away the castling right of that corner.
    pub open spec fn spec_rook_captured_rights(self, dest: Square) -> Position {
        if self.state.castling_rights.white_king_side && dest == Square::H1 {
            self.spec_lose_right(0, true)
        } else if self.state.castling_rights.white_queen_side && dest == Square::A1 {
            self.spec_lose_right(1, true)
        } else if self.state.castling_rights.black_king_side && dest == Square::H8 {
            self.spec_lose_right(2, true)
        } else if self.state.castling_rights.black_queen_side && dest == Square::A8 {
            self.spec_lose_right(3, true)
        } else {
            self
        }
    }

    /// A king move takes away both of its side's castling rights, queen side first.
    pub open spec fn spec_king_moved_rights(self, side: Side) -> Position {
        if side == Side::White {
            self.spec_lose_right(1, true).spec_lose_right(0, true)
        } else {
            self.spec_lose_right(3, true).spec_lose_right(2, true)
        }
    }

    /// A rook leaving a corner takes away the castling right of that corner.
    pub open spec fn spec_rook_moved_rights(self, src: Square) -> Position {
        if self.state.castling_rights.white_queen_side && src == Square::A1 {
            self.spec_lose_right(1, true)
        } else if self.state.castling_rights.white_king_side && src == Square::H1 {
            self.spec_lose_right(0, true)
        } else if self.state.castling_rights.black_queen_side && src == Square::A8 {
            self.spec_lose_right(3, true)
        } else if self.state.castling_rights.black_king_side && src == Square::H8 {
            self.spec_lose_right(2, true)
        } else {
            self
        }
    }

    /// The move is a pawn move onto the first or last rank.
    pub open spec fn is_promotion_move(self, m: Move) -> bool {
        self.piece_on(m.src, self.state.to_move) == Some(Piece::Pawn) && on_end_rank(m.dest)
    }

    /// The position after the move.
    pub open spec fn spec_make_move(self, m: Move) -> Position {
        let side = self.state.to_move;
        let piece = self.piece_on(m.src, side).unwrap();
        if self.is_en_passant(m) {
            self.spec_make_en_passant(m)
        } else if self.is_promotion_move(m) {
            self.stage_captured(m).spec_toggle(m.src, Piece::Pawn, side, false).spec_toggle(m.dest, m.promotion.unwrap(), side, true)
        } else {
            self.stage_before_move(m).spec_move_piece(m.src, m.dest, piece, side)
        }
    }

    /// What the move records to be taken back.
    pub open spec fn spec_undo_state(self, m: Move) -> UnmakeMoveState {
        let side = self.state.to_move;
        if self.is_en_passant(m) {
            UnmakeMoveState {
                mve: m,
                piece_moved: Piece::Pawn,
                captured_piece: Some(Piece::Pawn),
                en_passant_target: Some(m.dest),
                half_move_clock: 0,
                castling_rights: self.state.castling_rights,
            }
        } else {
            UnmakeMoveState {
                mve: m,
                piece_moved: self.piece_on(m.src, side).unwrap(),
                captured_piece: self.piece_on(m.dest, side.opp()),
                en_passant_target: self.state.en_passant_target,
                half_move_clock: self.state.half_move_clock,
                castling_rights: self.state.castling_rights,
            }
        }
    }

    /// The move can be made without tripping any of the checks `make_move` makes: the
    /// clock is below fifty, the side to move has a piece on the source square, the
    /// move counter has room, each piece moved or taken is there and each square filled is
    /// free of the mover's pieces, a pawn reaching the end rank names its promotion, a king
    /// moving two files lands on a castling square, and White still has a king afterwards.
    pub open spec fn make_move_ok(self, m: Move) -> bool {
        let side = self.state.to_move;
        let piece = self.piece_on(m.src, side).unwrap();
        &&& self.state.half_move_clock < 50
        &&& self.piece_on(m.src, side) is Some
        &&& side == Side::Black ==> self.state.full_move_counter < 255
        &&& if self.is_en_passant(m) {
            let cap = step_sq(m.dest, backward(side));
            &&& shift_dest(m.dest.idx(), backward(side)) >= 0
            &&& self.piece_on(m.dest, side) is None
            &&& self.stage_common().spec_move_piece(m.src, m.dest, Piece::Pawn, side).piece_on(cap, side.opp()) is Some
        } else {
            &&& (piece == Piece::Pawn && m.src.abs_diff_spec(m.dest) == 16) ==> shift_dest(m.src.idx(), forward(side)) >= 0
            &&& if self.is_promotion_move(m) {
                &&& m.promotion is Some
                &&& self.stage_captured(m).spec_toggle(m.src, Piece::Pawn, side, false).piece_on(m.dest, side) is None
            } else {
                &&& (piece == Piece::King && m.src.abs_diff_spec(m.dest) == 2) ==> {
                    &&& (m.dest == Square::C1 || m.dest == Square::G1 || m.dest == Square::C8 || m.dest == Square::G8)
                    &&& self.stage_captured(m).piece_on(castle_rook(m.dest).0, side) is Some
                    &&& self.stage_captured(m).piece_on(castle_rook(m.dest).1, side) is None
                }
                &&& self.stage_before_move(m).piece_on(m.src, side) is Some
                &&& self.stage_before_move(m).piece_on(m.dest, side) is None
                &&& self.spec_make_move(m).pieces.kings.white.0 != 0
            }
        }
    }
}

impl Position {
    /// Advances the move counter and folds the side-to-move key and the old en passant key
    /// into the hash.
    fn make_move_common(&mut self)
        requires
            old(self).state.to_move == Side::Black ==> old(self).state.full_move_counter < 255,
        ensures
            *final(self) == old(self).stage_common(),
    {
        if self.state.to_move == Side::Black {
            self.state.full_move_counter += 1;
        }
        self.zobrist_hash.flip_side_to_move();
        if let Some(en_passant_target) = self.state.en_passant_target {
            // Clear the previous en passant target.
            self.zobrist_hash.flip_en_passant_file(en_passant_target);
        } else {
            proof {
                lemma_xor_laws(self.zobrist_hash.0, 0, 0);
            }
        }
    }

    /// Takes away the castling right of a corner where a rook was taken.
    fn lose_rights_rook_captured(&mut self, dest: Square)
        ensures
            *final(self) == old(self).spec_rook_captured_rights(dest),
    {
        if self.state.castling_rights.white_king_side && dest == Square::H1 {
            self.state.castling_rights.white_king_side = false;
            self.zobrist_hash.flip_castling_rights_white_kingside();
        } else if self.state.castling_rights.white_queen_side && dest == Square::A1 {
            self.state.castling_rights.white_queen_side = false;
            self.zobrist_hash.flip_castling_rights_white_queenside();
        } else if self.state.castling_rights.black_king_side && dest == Square::H8 {
            self.state.castling_rights.black_king_side = false;
            self.zobrist_hash.flip_castling_rights_black_kingside();
        } else if self.state.castling_rights.black_queen_side && dest == Square::A8 {
            self.state.castling_rights.black_queen_side = false;
            self.zobrist_hash.flip_castling_rights_black_queenside();
        }
    }

    /// Takes away both castling rights of the side whose king moved.
    fn lose_rights_king_moved(&mut self, side: Side)
        ensures
            *final(self) == old(self).spec_king_moved_rights(side),
    {
        if side == Side::White {
            if self.state.castling_rights.white_queen_side {
                self.state.castling_rights.white_queen_side = false;
                self.zobrist_hash.flip_castling_rights_white_queenside();
            }
            if self.state.castling_rights.white_king_side {
                self.state.castling_rights.white_king_side = false;
                self.zobrist_hash.flip_castling_rights_white_kingside();
            }
        } else {
            if self.state.castling_rights.black_queen_side {
                self.state.castling_rights.black_queen_side = false;
                self.zobrist_hash.flip_castling_rights_black_queenside();
            }
            if self.state.castling_rights.black_king_side {
                self.state.castling_rights.black_king_side = false;
                self.zobrist_hash.flip_castling_rights_black_kingside();
            }
        }
    }

    /// Takes away the castling right of a corner a rook left.
    fn lose_rights_rook_moved(&mut self, src: Square)
        ensures
            *final(self) == old(self).spec_rook_moved_rights(src),
    {
        if self.state.castling_rights.white_queen_side && src == Square::A1 {
            self.state.castling_rights.white_queen_side = false;
            self.zobrist_hash.flip_castling_rights_white_queenside();
        } else if self.state.castling_rights.white_king_side && src == Square::H1 {
            self.state.castling_rights.white_king_side = false;
            self.zobrist_hash.flip_castling_rights_white_kingside();
        } else if self.state.castling_rights.black_queen_side && src == Square::A8 {
            self.state.castling_rights.black_queen_side = false;
            self.zobrist_hash.flip_castling_rights_black_queenside();
        } else if self.state.castling_rights.black_king_side && src == Square::H8 {
            self.state.castling_rights.black_king_side = false;
            self.zobrist_hash.flip_castling_rights_black_kingside();
        }
    }

    /// Handles the clocks, the captured piece and the en passant target of an ordinary
    /// move, after the common stage.
    fn make_move_capture_stage(&mut self, mve: Move, piece: Piece, captured_piece: Option<Piece>, Ghost(start): Ghost<Position>)
        requires
            *old(self) == start.stage_common(),
            start.piece_on(mve.src, start.state.to_move) == Some(piece),
            captured_piece == start.piece_on(mve.dest, start.state.to_move.opp()),
            start.state.half_move_clock < 50,
            (piece == Piece::Pawn && mve.src.abs_diff_spec(mve.dest) == 16) ==> shift_dest(mve.src.idx(), forward(start.state.to_move)) >= 0,
        ensures
            *final(self) == start.stage_captured(mve),
    {
        let side = self.state.to_move;
        let opp_side = side.opposite_side();
        self.state.to_move = opp_side;
        if piece == Piece::Pawn || captured_piece.is_some() {
            self.state.half_move_clock = 0;
        } else {
            self.state.half_move_clock += 1;
        }
        if let Some(opp_piece) = captured_piece {
            self.remove_piece(mve.dest, opp_piece, opp_side);
            if opp_piece == Piece::Rook {
                self.lose_rights_rook_captured(mve.dest);
            }
        }
        if piece == Piece::Pawn && mve.src.abs_diff(mve.dest) == 16 {
            let ep_dir = if side == Side::White { Direction::IncRank } else { Direction::DecRank };
            let ep_target = step_square(mve.src, ep_dir);
            self.state.en_passant_target = Some(ep_target);
            self.zobrist_hash.flip_en_passant_file(ep_target);
        } else {
            self.state.en_passant_target = None;
        }
    }

    /// The en passant capture, after the common stage.
    fn make_en_passant_move(&mut self, mve: Move, Ghost(start): Ghost<Position>)
        requires
            *old(self) == start.stage_common(),
            start.make_move_ok(mve),
            start.is_en_passant(mve),
        ensures
            *final(self) == start.spec_make_en_passant(mve),
    {
        let side = self.state.to_move;
        let opp_side = side.opposite_side();
        let ep_capture_dir = if side == Side::White { Direction::DecRank } else { Direction::IncRank };
        let ep_capture_sq = step_square(mve.dest, ep_capture_dir);
        self.move_piece(mve.src, mve.dest, Piece::Pawn, side);
        self.remove_piece(ep_capture_sq, Piece::Pawn, opp_side);
        self.state.en_passant_target = None;
        self.state.to_move = self.state.to_move.opposite_side();
    }

    /// The castling rights and the rook of a king or rook move, after the capture stage.
    fn make_move_rights_stage(&mut self, mve: Move, piece: Piece, side: Side, Ghost(start): Ghost<Position>)
        requires
            side == start.state.to_move,
            *old(self) == start.stage_captured(mve),
            !start.is_en_passant(mve),
            !start.is_promotion_move(mve),
            start.piece_on(mve.src, start.state.to_move) == Some(piece),
            (piece == Piece::King && mve.src.abs_diff_spec(mve.dest) == 2) ==> {
                &&& (mve.dest == Square::C1 || mve.dest == Square::G1 || mve.dest == Square::C8 || mve.dest == Square::G8)
                &&& start.stage_captured(mve).piece_on(castle_rook(mve.dest).0, side) is Some
                &&& start.stage_captured(mve).piece_on(castle_rook(mve.dest).1, side) is None
            },
        ensures
            *final(self) == start.stage_before_move(mve),
    {
        if piece == Piece::King {
            self.lose_rights_king_moved(side);
            if mve.src.abs_diff(mve.dest) == 2 {
                // Castled
                let (rook_src, rook_dest) = if mve.dest == Square::C1 {
                    (Square::A1, Square::D1)
                } else if mve.dest == Square::G1 {
                    (Square::H1, Square::F1)
                } else if mve.dest == Square::C8 {
                    (Square::A8, Square::D8)
                } else {
                    (Square::H8, Square::F8)
                };
                self.move_piece(rook_src, rook_dest, Piece::Rook, side);
            }
        }
        if piece == Piece::Rook {
            self.lose_rights_rook_moved(mve.src);
        }
    }

    /// Makes the move for the side to move and returns what is needed to take it back.
    ///
    /// An en passant capture moves the pawn and takes the pawn behind the target. Any
    /// other move takes the piece on the destination, updates the clocks, the en passant
    /// target and the castling rights, promotes a pawn reaching the end rank, moves the
    /// rook of a castling, and moves the piece.
    pub fn make_move(&mut self, mve: Move) -> (r: UnmakeMoveState)
        requires
            old(self).make_move_ok(mve),
        ensures
            *final(self) == old(self).spec_make_move(mve),
            r == old(self).spec_undo_state(mve),
    {
        let ghost start = *self;
        let side = self.state.to_move;
        let opp_side = side.opposite_side();
        let piece = match self.is_piece_at(mve.src, side) {
            Some(p) => p,
            None => {
                proof { assert(false); }
                Piece::Pawn
            },
        };
        let captured_piece = self.is_piece_at(mve.dest, opp_side);
        let prev_en_passant_target = self.state.en_passant_target;
        let prev_half_move_clock = self.state.half_move_clock;
        let prev_castling_rights = self.state.castling_rights;
        self.make_move_common();
        if let Some(en_passant_target) = prev_en_passant_target {
            if mve.dest == en_passant_target && piece == Piece::Pawn {
                self.make_en_passant_move(mve, Ghost(start));
                return UnmakeMoveState {
                    mve,
                    piece_moved: Piece::Pawn,
                    captured_piece: Some(Piece::Pawn),
                    en_passant_target: Some(mve.dest),
                    half_move_clock: 0,
                    castling_rights: self.state.castling_rights,
                };
            }
        }
        let unmake_move_state = UnmakeMoveState {
            mve,
            piece_moved: piece,
            captured_piece,
            en_passant_target: prev_en_passant_target,
            half_move_clock: prev_half_move_clock,
            castling_rights: prev_castling_rights,
        };
        self.make_move_capture_stage(mve, piece, captured_piece, Ghost(start));
        // Promotion
        let dest_idx = mve.dest.to_u8();
        if piece == Piece::Pawn && (dest_idx >= 56 || dest_idx <= 7) {
            let promotion = match mve.promotion {
                Some(p) => p,
                None => {
                    proof { assert(false); }
                    Piece::Queen
                },
            };
            self.remove_piece(mve.src, Piece::Pawn, side);
            self.add_piece(mve.dest, promotion, side);
            return unmake_move_state;
        }
        self.make_move_rights_stage(mve, piece, side, Ghost(start));
        self.move_piece(mve.src, mve.dest, piece, side);
        unmake_move_state
    }
}

impl Position {
    /// The castling keys folded into the hash when a move is taken back: the key of each
    /// right whose current value differs from the recorded one.
    pub open spec fn spec_unmake_rights(self, undo: UnmakeMoveState) -> Position {
        let c = self.state.castling_rights;
        let u = undo.castling_rights;
        let p1 = if c.white_queen_side != u.white_queen_side { self.spec_flip(ZOBRIST_CASTLING_KEYS[1]) } else { self };
        let p2 = if c.white_king_side != u.white_king_side { p1.spec_flip(ZOBRIST_CASTLING_KEYS[0]) } else { p1 };
        let p3 = if c.black_queen_side != u.black_queen_side { p2.spec_flip(ZOBRIST_CASTLING_KEYS[3]) } else { p2 };
        let p4 = if c.black_king_side != u.black_king_side { p3.spec_flip(ZOBRIST_CASTLING_KEYS[2]) } else { p3 };
        p4.spec_with_state(State { castling_rights: u, ..p4.state })
    }

    /// The state restored from the record: rights, en passant target, clock, counter and
    /// side to move, with their keys folded into the hash.
    pub open spec fn stage_unmake_state(self, undo: UnmakeMoveState) -> Position {
        let moved_side = self.state.to_move.opp();
        let p1 = self.spec_unmake_rights(undo);
        let p2 = p1.spec_flip(en_passant_term(p1.state.en_passant_target));
        let counter = if moved_side == Side::Black {
            (p2.state.full_move_counter - 1) as u8
        } else {
            p2.state.full_move_counter
        };
        p2.spec_with_state(State {
            en_passant_target: undo.en_passant_target,
            half_move_clock: undo.half_move_clock,
            full_move_counter: counter,
            to_move: moved_side,
            ..p2.state
        }).spec_flip(ZOBRIST_BLACK_TO_MOVE_KEY)
    }

    /// The moved piece back on its square (for a promotion: the promoted piece taken off
    /// and the pawn put back), and a castling rook back on its corner.
    pub open spec fn stage_unmake_pieces(self, undo: UnmakeMoveState) -> Position {
        let m = undo.mve;
        let moved_side = self.state.to_move.opp();
        let s = self.stage_unmake_state(undo);
        let (p2, piece_moved) = match m.promotion {
            Some(pp) => (s.spec_toggle(m.dest, pp, moved_side, false).spec_toggle(m.src, Piece::Pawn, moved_side, true), Piece::Pawn),
            None => (s.spec_move_piece(m.dest, m.src, undo.piece_moved, moved_side), undo.piece_moved),
        };
        if piece_moved == Piece::King && m.src.abs_diff_spec(m.dest) == 2 {
            p2.spec_move_piece(castle_rook(m.dest).1, castle_rook(m.dest).0, Piece::Rook, moved_side)
        } else {
            p2
        }
    }

    /// The position with the move recorded in `undo` taken back.
    pub open spec fn spec_unmake_move(self, undo: UnmakeMoveState) -> Position {
        let m = undo.mve;
        let opp_side = self.state.to_move;
        let moved_side = opp_side.opp();
        let p = self.stage_unmake_pieces(undo);
        match undo.en_passant_target {
            Some(t) => {
                let q = p.spec_flip(en_passant_term(Some(t)));
                if m.dest == t && undo.piece_moved == Piece::Pawn {
                    q.spec_toggle(step_sq(t, backward(moved_side)), Piece::Pawn, opp_side, true)
                } else {
                    match undo.captured_piece {
                        Some(c) => q.spec_toggle(m.dest, c, opp_side, true),
                        None => q,
                    }
                }
            },
            None => match undo.captured_piece {
                Some(c) => p.spec_toggle(m.dest, c, opp_side, true),
                None => p,
            },
        }
    }

    /// Taking the move back trips none of the checks `unmake_move` makes: the move
    /// counter has room, each piece moved back or taken off is there, each square filled
    /// is free of the pieces of the side filling it, and a king that moved two files
    /// castled.
    pub open spec fn unmake_move_ok(self, undo: UnmakeMoveState) -> bool {
        let m = undo.mve;
        let opp_side = self.state.to_move;
        let moved_side = opp_side.opp();
        let s = self.stage_unmake_state(undo);
        let p2 = match m.promotion {
            Some(pp) => s.spec_toggle(m.dest, pp, moved_side, false).spec_toggle(m.src, Piece::Pawn, moved_side, true),
            None => s.spec_move_piece(m.dest, m.src, undo.piece_moved, moved_side),
        };
        let piece_moved = if m.promotion is Some { Piece::Pawn } else { undo.piece_moved };
        let p = self.stage_unmake_pieces(undo);
        &&& moved_side == Side::Black ==> self.state.full_move_counter > 0
        &&& s.piece_on(m.dest, moved_side) is Some
        &&& s.piece_on(m.src, moved_side) is None
        &&& m.promotion matches Some(pp) ==> s.spec_toggle(m.dest, pp, moved_side, false).piece_on(m.src, moved_side) is None
        &&& (piece_moved == Piece::King && m.src.abs_diff_spec(m.dest) == 2) ==> {
            &&& (m.dest == Square::C1 || m.dest == Square::G1 || m.dest == Square::C8 || m.dest == Square::G8)
            &&& p2.piece_on(castle_rook(m.dest).1, moved_side) is Some
            &&& p2.piece_on(castle_rook(m.dest).0, moved_side) is None
        }
        &&& if undo.en_passant_target == Some(m.dest) && undo.piece_moved == Piece::Pawn {
            &&& shift_dest(m.dest.idx(), backward(moved_side)) >= 0
            &&& p.piece_on(step_sq(m.dest, backward(moved_side)), opp_side) is None
        } else {
            undo.captured_piece is Some ==> p.piece_on(m.dest, opp_side) is None
        }
    }

    /// Folds the castling keys of taking a move back into the hash and restores the
    /// recorded rights.
    fn unmake_rights(&mut self, undo: &UnmakeMoveState)
        ensures
            *final(self) == old(self).spec_unmake_rights(*undo),
    {
        if self.state.castling_rights.white_queen_side != undo.castling_rights.white_queen_side {
            self.zobrist_hash.flip_castling_rights_white_queenside();
        }
        if self.state.castling_rights.white_king_side != undo.castling_rights.white_king_side {
            self.zobrist_hash.flip_castling_rights_white_kingside();
        }
        if self.state.castling_rights.black_queen_side != undo.castling_rights.black_queen_side {
            self.zobrist_hash.flip_castling_rights_black_queenside();
        }
        if self.state.castling_rights.black_king_side != undo.castling_rights.black_king_side {
            self.zobrist_hash.flip_castling_rights_black_kingside();
        }
        self.state.castling_rights = undo.castling_rights;
    }

    /// Restores the state recorded in `undo`.
    fn unmake_state(&mut self, undo: &UnmakeMoveState)
        requires
            old(self).state.to_move.opp() == Side::Black ==> old(self).state.full_move_counter > 0,
        ensures
            *final(self) == old(self).stage_unmake_state(*undo),
    {
        let moved_side = self.state.to_move.opposite_side();
        self.unmake_rights(undo);
        if let Some(prev_en_passant_target) = self.state.en_passant_target {
            self.zobrist_hash.flip_en_passant_file(prev_en_passant_target);
        } else {
            proof {
                lemma_xor_laws(self.zobrist_hash.0, 0, 0);
            }
        }
        self.state.en_passant_target = undo.en_passant_target;
        self.state.half_move_clock = undo.half_move_clock;
        if moved_side == Side::Black {
            self.state.full_move_counter -= 1;
        }
        self.state.to_move = moved_side;
        self.zobrist_hash.flip_side_to_move();
    }

    /// Puts the moved piece back (for a promotion: takes the promoted piece off and puts the
    /// pawn back) and puts a castling rook back.
    fn unmake_pieces(&mut self, undo: &UnmakeMoveState, Ghost(start): Ghost<Position>)
        requires
            *old(self) == start.stage_unmake_state(*undo),
            start.unmake_move_ok(*undo),
        ensures
            *final(self) == start.stage_unmake_pieces(*undo),
    {
        let mve = undo.mve;
        let moved_side = self.state.to_move;
        let mut piece_moved = undo.piece_moved;
        // A promotion takes the promoted piece off and puts the pawn back.
        if let Some(promotion_piece) = mve.promotion {
            piece_moved = Piece::Pawn;
            self.remove_piece(mve.dest, promotion_piece, moved_side);
            self.add_piece(mve.src, Piece::Pawn, moved_side);
        } else {
            self.move_piece(mve.dest, mve.src, piece_moved, moved_side);
        }
        // Undo a castling.
        if piece_moved == Piece::King && mve.src.abs_diff(mve.dest) == 2 {
            let (rook_src, rook_dest) = if mve.dest == Square::C1 {
                (Square::A1, Square::D1)
            } else if mve.dest == Square::G1 {
                (Square::H1, Square::F1)
            } else if mve.dest == Square::C8 {
                (Square::A8, Square::D8)
            } else {
                (Square::H8, Square::F8)
            };
            self.move_piece(rook_dest, rook_src, Piece::Rook, moved_side);
        }
    }

    /// Takes back the move recorded in `undo_move_state`, which `make_move` returned.
    pub fn unmake_move(&mut self, undo_move_state: UnmakeMoveState) -> (r: Result<(), PositionError>)
        requires
            old(self).unmake_move_ok(undo_move_state),
        ensures
            *final(self) == old(self).spec_unmake_move(undo_move_state),
            r is Ok,
    {
        let ghost start = *self;
        let mve = undo_move_state.mve;
        let opp_side = self.state.to_move;
        let moved_side = opp_side.opposite_side();
        self.unmake_state(&undo_move_state);
        self.unmake_pieces(&undo_move_state, Ghost(start));
        if let Some(en_passant_target) = undo_move_state.en_passant_target {
            self.zobrist_hash.flip_en_passant_file(en_passant_target);
            if mve.dest == en_passant_target && undo_move_state.piece_moved == Piece::Pawn {
                let ep_capture_dir = if moved_side == Side::White { Direction::DecRank } else { Direction::IncRank };
                let ep_capture_sq = step_square(en_passant_target, ep_capture_dir);
                self.add_piece(ep_capture_sq, Piece::Pawn, opp_side);
                return Ok(());
            }
        }
        if let Some(captured_piece) = undo_move_state.captured_piece {
            self.add_piece(mve.dest, captured_piece, opp_side);
        }
        Ok(())
    }
}

/// Boards that agree on every square are equal; both sides' boards and all twelve
/// piece boards of two positions.
pub proof fn lemma_boards_ext(a: Position, b: Position)
    requires
        forall|t: Square, s: Side| #[trigger] a.sides.of(s).has(t) == b.sides.of(s).has(t),
        forall|t: Square, p: Piece, s: Side| #[trigger] a.pieces.board(p, s).has(t) == b.pieces.board(p, s).has(t),
    ensures
        a.sides == b.sides,
        a.pieces == b.pieces,
{
    assert forall|s: Side| a.sides.of(s) == b.sides.of(s) by {
        assert forall|t: Square| a.sides.of(s).has(t) == b.sides.of(s).has(t) by {}
        BitBoard::lemma_ext(a.sides.of(s), b.sides.of(s));
    }
    assert(a.sides.of(Side::White) == b.sides.of(Side::White));
    assert(a.sides.of(Side::Black) == b.sides.of(Side::Black));
    assert forall|p: Piece, s: Side| a.pieces.board(p, s) == b.pieces.board(p, s) by {
        assert forall|t: Square| a.pieces.board(p, s).has(t) == b.pieces.board(p, s).has(t) by {}
        BitBoard::lemma_ext(a.pieces.board(p, s), b.pieces.board(p, s));
    }
    assert forall|p: Piece| a.pieces.of(p) == b.pieces.of(p) by {
        assert(a.pieces.board(p, Side::White) == b.pieces.board(p, Side::White));
        assert(a.pieces.board(p, Side::Black) == b.pieces.board(p, Side::Black));
    }
    assert(a.pieces.of(Piece::Pawn) == b.pieces.of(Piece::Pawn));
    assert(a.pieces.of(Piece::Knight) == b.pieces.of(Piece::Knight));
    assert(a.pieces.of(Piece::Bishop) == b.pieces.of(Piece::Bishop));
    assert(a.pieces.of(Piece::Rook) == b.pieces.of(Piece::Rook));
    assert(a.pieces.of(Piece::Queen) == b.pieces.of(Piece::Queen));
    assert(a.pieces.of(Piece::King) == b.pieces.of(Piece::King));
}

/// The two positions have the same boards.
pub open spec fn same_boards(a: Position, b: Position) -> bool {
    a.sides == b.sides && a.pieces == b.pieces
}

/// Changes of rights, of the state and of the hash leave the boards alone.
proof fn lemma_rights_keep_boards(r: Position, m: Move, side: Side)
    ensures
        same_boards(r.spec_rook_captured_rights(m.dest), r),
        same_boards(r.spec_king_moved_rights(side), r),
        same_boards(r.spec_rook_moved_rights(m.src), r),
        r.spec_rook_captured_rights(m.dest).state.to_move == r.state.to_move,
        r.spec_king_moved_rights(side).state.to_move == r.state.to_move,
        r.spec_rook_moved_rights(m.src).state.to_move == r.state.to_move,
        r.spec_rook_captured_rights(m.dest).state.full_move_counter == r.state.full_move_counter,
        r.spec_king_moved_rights(side).state.full_move_counter == r.state.full_move_counter,
        r.spec_rook_moved_rights(m.src).state.full_move_counter == r.state.full_move_counter,
{
}

/// The boards and side to move after the capture stage of a move that is not en passant.
proof fn lemma_stage_captured_boards(p: Position, m: Move)
    requires
        !p.is_en_passant(m),
    ensures
        same_boards(p.stage_captured(m), match p.piece_on(m.dest, p.state.to_move.opp()) {
            Some(c) => p.spec_toggle(m.dest, c, p.state.to_move.opp(), false),
            None => p,
        }),
        p.stage_captured(m).state.to_move == p.state.to_move.opp(),
        p.stage_captured(m).state.full_move_counter == p.stage_common().state.full_move_counter,
{
    let side = p.state.to_move;
    let c = p.piece_on(m.dest, side.opp());
    if let Some(cp) = c {
        lemma_rights_keep_boards(p.stage_common().spec_with_state(State { to_move: side.opp(), ..p.stage_common().state }).spec_toggle(m.dest, cp, side.opp(), false), m, side);
    }
}

/// The boards before the moving piece moves, for a move that is neither en passant,
/// promotion nor castling.
proof fn lemma_stage_before_boards(p: Position, m: Move)
    requires
        !p.is_en_passant(m),
        p.piece_on(m.src, p.state.to_move) is Some,
        !(p.piece_on(m.src, p.state.to_move) == Some(Piece::King) && m.src.abs_diff_spec(m.dest) == 2),
    ensures
        same_boards(p.stage_before_move(m), p.stage_captured(m)),
        p.stage_before_move(m).state.to_move == p.state.to_move.opp(),
        p.stage_before_move(m).state.full_move_counter == p.stage_common().state.full_move_counter,
{
    let side = p.state.to_move;
    let c = p.stage_captured(m);
    lemma_stage_captured_boards(p, m);
    lemma_rights_keep_boards(c, m, side);
    lemma_rights_keep_boards(c.spec_king_moved_rights(side), m, side);
}

/// What toggling one bit does to every board: only the toggled piece's board and its
/// side's board change, at the toggled square.
pub proof fn lemma_toggle_boards(b: Position, sq: Square, piece: Piece, side: Side, on: bool)
    ensures
        forall|p2: Piece, s2: Side| #[trigger] b.spec_toggle(sq, piece, side, on).pieces.board(p2, s2)
            == if p2 == piece && s2 == side { with_bit(b.pieces.board(piece, side), sq, on) } else { b.pieces.board(p2, s2) },
        forall|s2: Side| #[trigger] b.spec_toggle(sq, piece, side, on).sides.of(s2)
            == if s2 == side { with_bit(b.sides.of(side), sq, on) } else { b.sides.of(s2) },
        b.spec_toggle(sq, piece, side, on).state == b.state,
{
}

/// Toggling the same bit of positions with the same boards gives positions with the same
/// boards.
pub proof fn lemma_toggle_congruent(a: Position, b: Position, sq: Square, piece: Piece, side: Side, on: bool)
    requires
        same_boards(a, b),
    ensures
        same_boards(a.spec_toggle(sq, piece, side, on), b.spec_toggle(sq, piece, side, on)),
{
}

/// Moving a piece away and back leaves its board as it was.
pub proof fn lemma_move_back_bits(x: BitBoard, src: Square, dest: Square)
    requires
        x.has(src),
        !x.has(dest),
    ensures
        with_bit(with_bit(with_bit(with_bit(x, src, false), dest, true), dest, false), src, true) == x,
{
    let y = with_bit(with_bit(with_bit(with_bit(x, src, false), dest, true), dest, false), src, true);
    assert forall|t: Square| y.has(t) == x.has(t) by {}
    BitBoard::lemma_ext(y, x);
}

/// Taking a piece off and putting it back leaves its board as it was.
pub proof fn lemma_clear_set_bits(x: BitBoard, sq: Square)
    requires
        x.has(sq),
    ensures
        with_bit(with_bit(x, sq, false), sq, true) == x,
{
    let y = with_bit(with_bit(x, sq, false), sq, true);
    assert forall|t: Square| y.has(t) == x.has(t) by {}
    BitBoard::lemma_ext(y, x);
}

/// Positions whose boards are all equal have the same boards.
pub proof fn lemma_boards_eq(a: Position, b: Position)
    requires
        forall|s: Side| #[trigger] a.sides.of(s) == b.sides.of(s),
        forall|p: Piece, s: Side| #[trigger] a.pieces.board(p, s) == b.pieces.board(p, s),
    ensures
        same_boards(a, b),
{
    assert(a.sides.of(Side::White) == b.sides.of(Side::White));
    assert(a.sides.of(Side::Black) == b.sides.of(Side::Black));
    assert forall|p: Piece| a.pieces.of(p) == b.pieces.of(p) by {
        assert(a.pieces.board(p, Side::White) == b.pieces.board(p, Side::White));
        assert(a.pieces.board(p, Side::Black) == b.pieces.board(p, Side::Black));
    }
    assert(a.pieces.of(Piece::Pawn) == b.pieces.of(Piece::Pawn));
    assert(a.pieces.of(Piece::Knight) == b.pieces.of(Piece::Knight));
    assert(a.pieces.of(Piece::Bishop) == b.pieces.of(Piece::Bishop));
    assert(a.pieces.of(Piece::Rook) == b.pieces.of(Piece::Rook));
    assert(a.pieces.of(Piece::Queen) == b.pieces.of(Piece::Queen));
    assert(a.pieces.of(Piece::King) == b.pieces.of(Piece::King));
}

/// Moving a piece away and back, around taking a piece off its destination and putting
/// it back, leaves the boards as they were.
pub proof fn lemma_roundtrip_move(b: Position, src: Square, dest: Square, piece: Piece, side: Side, c: Option<Piece>)
    requires
        b.pieces.board(piece, side).has(src),
        !b.pieces.board(piece, side).has(dest),
        b.sides.of(side).has(src),
        !b.sides.of(side).has(dest),
        c matches Some(cp) ==> b.pieces.board(cp, side.opp()).has(dest) && b.sides.of(side.opp()).has(dest),
    ensures
        same_boards(b, {
            let b1 = match c {
                Some(cp) => b.spec_toggle(dest, cp, side.opp(), false),
                None => b,
            };
            let b3 = b1.spec_move_piece(src, dest, piece, side).spec_move_piece(dest, src, piece, side);
            match c {
                Some(cp) => b3.spec_toggle(dest, cp, side.opp(), true),
                None => b3,
            }
        }),
{
    let opp = side.opp();
    let b1 = match c {
        Some(cp) => b.spec_toggle(dest, cp, opp, false),
        None => b,
    };
    if let Some(cp) = c {
        lemma_toggle_boards(b, dest, cp, opp, false);
    }
    let b2a = b1.spec_toggle(src, piece, side, false);
    lemma_toggle_boards(b1, src, piece, side, false);
    let b2 = b2a.spec_toggle(dest, piece, side, true);
    lemma_toggle_boards(b2a, dest, piece, side, true);
    let b3a = b2.spec_toggle(dest, piece, side, false);
    lemma_toggle_boards(b2, dest, piece, side, false);
    let b3 = b3a.spec_toggle(src, piece, side, true);
    lemma_toggle_boards(b3a, src, piece, side, true);
    let rt = match c {
        Some(cp) => b3.spec_toggle(dest, cp, opp, true),
        None => b3,
    };
    if let Some(cp) = c {
        lemma_toggle_boards(b3, dest, cp, opp, true);
        lemma_clear_set_bits(b.pieces.board(cp, opp), dest);
        lemma_clear_set_bits(b.sides.of(opp), dest);
    }
    lemma_move_back_bits(b.pieces.board(piece, side), src, dest);
    lemma_move_back_bits(b.sides.of(side), src, dest);
    assert forall|s2: Side| #[trigger] rt.sides.of(s2) == b.sides.of(s2) by {}
    assert forall|p2: Piece, s2: Side| #[trigger] rt.pieces.board(p2, s2) == b.pieces.board(p2, s2) by {}
    lemma_boards_eq(rt, b);
}

} // verus!
