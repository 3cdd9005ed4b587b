//! Squares and 64-bit boards, one bit per square.
use vstd::prelude::*;

use crate::bits::{bit_set, group_bits, lemma_bits_ext, lemma_nonzero_has_bit};

verus! {

broadcast use {group_bits, vstd::seq_lib::group_seq_properties};

/// A square of the board, numbered from A1 (0) along the ranks to H8 (63).
#[derive(Clone, Copy, Debug, PartialEq, Eq, Structural, Hash)]
pub enum Square {
    A1, B1, C1, D1, E1, F1, G1, H1,
    A2, B2, C2, D2, E2, F2, G2, H2,
    A3, B3, C3, D3, E3, F3, G3, H3,
    A4, B4, C4, D4, E4, F4, G4, H4,
    A5, B5, C5, D5, E5, F5, G5, H5,
    A6, B6, C6, D6, E6, F6, G6, H6,
    A7, B7, C7, D7, E7, F7, G7, H7,
    A8, B8, C8, D8, E8, F8, G8, H8,
}

impl Square {
    /// The square's number: rank times eight plus file.
    pub open spec fn idx(self) -> int {
        self as int
    }

    /// The rank, 0 for the first rank.
    pub open spec fn rank(self) -> int {
        self.idx() / 8
    }

    /// The file, 0 for the A file.
    pub open spec fn file(self) -> int {
        self.idx() % 8
    }

    /// The square's number, as the index of its bit.
    pub fn bit_index(self) -> (r: u64)
        ensures
            r == self.idx(),
            r < 64,
    {
        self as u64
    }

    /// The square's number.
    pub fn to_u8(self) -> (r: u8)
        ensures
            r == self.idx(),
            r < 64,
    {
        self as u8
    }

    /// The square with the given number.
    pub fn from_u8(idx: u8) -> (sq: Square)
        requires
            idx < 64,
        ensures
            sq.idx() == idx,
    {
        match idx {
            0 => Square::A1,
            1 => Square::B1,
            2 => Square::C1,
            3 => Square::D1,
            4 => Square::E1,
            5 => Square::F1,
            6 => Square::G1,
            7 => Square::H1,
            8 => Square::A2,
            9 => Square::B2,
            10 => Square::C2,
            11 => Square::D2,
            12 => Square::E2,
            13 => Square::F2,
            14 => Square::G2,
            15 => Square::H2,
            16 => Square::A3,
            17 => Square::B3,
            18 => Square::C3,
            19 => Square::D3,
            20 => Square::E3,
            21 => Square::F3,
            22 => Square::G3,
            23 => Square::H3,
            24 => Square::A4,
            25 => Square::B4,
            26 => Square::C4,
            27 => Square::D4,
            28 => Square::E4,
            29 => Square::F4,
            30 => Square::G4,
            31 => Square::H4,
            32 => Square::A5,
            33 => Square::B5,
            34 => Square::C5,
            35 => Square::D5,
            36 => Square::E5,
            37 => Square::F5,
            38 => Square::G5,
            39 => Square::H5,
            40 => Square::A6,
            41 => Square::B6,
            42 => Square::C6,
            43 => Square::D6,
            44 => Square::E6,
            45 => Square::F6,
            46 => Square::G6,
            47 => Square::H6,
            48 => Square::A7,
            49 => Square::B7,
            50 => Square::C7,
            51 => Square::D7,
            52 => Square::E7,
            53 => Square::F7,
            54 => Square::G7,
            55 => Square::H7,
            56 => Square::A8,
            57 => Square::B8,
            58 => Square::C8,
            59 => Square::D8,
            60 => Square::E8,
            61 => Square::F8,
            62 => Square::G8,
            63 => Square::H8,
            _ => Square::H8,
        }
    }
}

} // verus!

verus! {

impl Square {
    /// Squares with the same number are the same square.
    pub proof fn lemma_idx_injective(a: Square, b: Square)
        ensures
            (a.idx() == b.idx()) == (a == b),
            0 <= a.idx() < 64,
    {
    }

    /// The distance between the squares' numbers.
    pub open spec fn abs_diff_spec(self, other: Square) -> int {
        if self.idx() >= other.idx() {
            self.idx() - other.idx()
        } else {
            other.idx() - self.idx()
        }
    }

    /// The distance between the squares' numbers.
    pub fn abs_diff(self, other: Square) -> (r: u8)
        ensures
            r == self.abs_diff_spec(other),
    {
        let a = self as u8;
        let b = other as u8;
        if a >= b {
            a - b
        } else {
            b - a
        }
    }

    /// The rank and the file of the square.
    pub fn to_rank_file(self) -> (r: (u8, u8))
        ensures
            r.0 == self.rank(),
            r.1 == self.file(),
            r.0 < 8,
            r.1 < 8,
    {
        (self as u8 / 8, self as u8 % 8)
    }

    /// The square on the same file and the mirrored rank.
    pub open spec fn flipped(self) -> Square {
        Square::spec_from_idx((7 - self.rank()) * 8 + self.file())
    }

    /// The same square seen from the other side: the rank is mirrored, the file kept.
    pub fn flip(self) -> (r: Square)
        ensures
            r.rank() == 7 - self.rank(),
            r.file() == self.file(),
    {
        let i = self as u8;
        Square::from_u8((7 - i / 8) * 8 + i % 8)
    }

    /// The squares as White sees the board: from A8 along the eighth rank, down to H1.
    pub fn list_white_perspective() -> (r: [Square; 64])
        ensures
            forall|i: int| 0 <= i < 64 ==> (#[trigger] r[i]).idx() == (7 - i / 8) * 8 + i % 8,
    {
        let mut r = [Square::A1; 64];
        let mut i: usize = 0;
        while i < 64
            invariant
                i <= 64,
                forall|k: int| 0 <= k < i ==> (#[trigger] r[k]).idx() == (7 - k / 8) * 8 + k % 8,
            decreases 64 - i,
        {
            let k = i as u8;
            r[i] = Square::from_u8((7 - k / 8) * 8 + k % 8);
            i += 1;
        }
        r
    }

    /// The squares as Black sees the board: from H1 along the first rank, up to A8.
    pub fn list_black_perspective() -> (r: [Square; 64])
        ensures
            forall|i: int| 0 <= i < 64 ==> (#[trigger] r[i]).idx() == (i / 8) * 8 + 7 - i % 8,
    {
        let mut r = [Square::A1; 64];
        let mut i: usize = 0;
        while i < 64
            invariant
                i <= 64,
                forall|k: int| 0 <= k < i ==> (#[trigger] r[k]).idx() == (k / 8) * 8 + 7 - k % 8,
            decreases 64 - i,
        {
            let k = i as u8;
            r[i] = Square::from_u8((k / 8) * 8 + 7 - k % 8);
            i += 1;
        }
        r
    }
}

/// One step on the board.
#[derive(Clone, Copy, Debug, PartialEq, Eq, Structural)]
pub enum Direction {
    IncRank,
    IncFile,
    DecRank,
    DecFile,
}

/// Moving every bit of `v` one step in `dir`; bits that would leave the board are dropped.
pub open spec fn shift_val(v: u64, dir: Direction) -> u64 {
    match dir {
        Direction::IncRank => v << 8u64,
        Direction::DecRank => v >> 8u64,
        Direction::IncFile => (v & 0x7F7F7F7F7F7F7F7Fu64) << 1u64,
        Direction::DecFile => (v & 0xFEFEFEFEFEFEFEFEu64) >> 1u64,
    }
}

/// The square one step from square number `t` in the reverse of `dir`, if it is on the
/// board: the square whose bit lands on `t` when shifting in `dir`.
pub open spec fn shift_source(t: int, dir: Direction) -> int {
    match dir {
        Direction::IncRank => if t >= 8 { t - 8 } else { -1 },
        Direction::DecRank => if t < 56 { t + 8 } else { -1 },
        Direction::IncFile => if t % 8 != 0 { t - 1 } else { -1 },
        Direction::DecFile => if t % 8 != 7 { t + 1 } else { -1 },
    }
}

/// Bit `t` of a shifted word is bit `shift_source(t)` of the original.
pub broadcast proof fn lemma_shift_bit(v: u64, dir: Direction, t: u64)
    requires
        t < 64,
    ensures
        #[trigger] bit_set(shift_val(v, dir), t) == (shift_source(t as int, dir) >= 0
            && bit_set(v, shift_source(t as int, dir) as u64)),
{
    match dir {
        Direction::IncRank => {
            assert(bit_set(v << 8u64, t) == (t >= 8 && bit_set(v, (t - 8) as u64))) by (bit_vector)
                requires
                    t < 64,
            ;
        },
        Direction::DecRank => {
            assert(bit_set(v >> 8u64, t) == (t < 56 && bit_set(v, (t + 8) as u64))) by (bit_vector)
                requires
                    t < 64,
            ;
        },
        Direction::IncFile => {
            assert(bit_set((v & 0x7F7F7F7F7F7F7F7Fu64) << 1u64, t) == (t % 8 != 0 && bit_set(
                v,
                (t - 1) as u64,
            ))) by (bit_vector)
                requires
                    t < 64,
            ;
        },
        Direction::DecFile => {
            assert(bit_set((v & 0xFEFEFEFEFEFEFEFEu64) >> 1u64, t) == (t % 8 != 7 && bit_set(
                v,
                (t + 1) as u64,
            ))) by (bit_vector)
                requires
                    t < 64,
            ;
        },
    }
}

/// `a - b` modulo 2^64.
pub open spec fn wrapping_sub_u64(a: u64, b: u64) -> u64 {
    if a >= b {
        (a - b) as u64
    } else {
        (a - b + 0x1_0000_0000_0000_0000) as u64
    }
}

/// A set of squares: bit `i` is set when square number `i` is in the set.
#[derive(Clone, Copy, Debug, PartialEq, Eq, Structural)]
pub struct BitBoard(pub u64);

impl BitBoard {
    /// The square is in the set.
    pub open spec fn has(self, sq: Square) -> bool {
        bit_set(self.0, sq.idx() as u64)
    }

    /// Two boards with the same squares are equal.
    pub proof fn lemma_ext(a: BitBoard, b: BitBoard)
        requires
            forall|sq: Square| a.has(sq) == b.has(sq),
        ensures
            a == b,
    {
        assert forall|i: u64| i < 64 implies bit_set(a.0, i) == bit_set(b.0, i) by {
            let sq = Square::spec_from_idx(i as int);
            assert(a.has(sq) == b.has(sq));
        }
        lemma_bits_ext(a.0, b.0);
    }

    /// The set with no square.
    pub fn empty() -> (r: BitBoard)
        ensures
            r.0 == 0,
            forall|sq: Square| !r.has(sq),
    {
        BitBoard(0)
    }

    /// The set of every square.
    pub fn full() -> (r: BitBoard)
        ensures
            r.0 == u64::MAX,
            forall|sq: Square| r.has(sq),
    {
        BitBoard(u64::MAX)
    }

    /// The set holding the one square.
    pub fn from_square(square: Square) -> (r: BitBoard)
        ensures
            r.0 == 1u64 << (square.idx() as u64),
            forall|sq: Square| r.has(sq) == (sq == square),
    {
        let i = square.bit_index();
        BitBoard(1u64 << i)
    }

    /// The set of the given squares.
    pub fn from_squares(squares: &[Square]) -> (r: BitBoard)
        ensures
            forall|sq: Square| r.has(sq) == squares@.contains(sq),
    {
        let mut board: u64 = 0;
        let mut k: usize = 0;
        while k < squares.len()
            invariant
                k <= squares@.len(),
                forall|sq: Square| bit_set(board, sq.idx() as u64) == squares@.take(k as int).contains(sq),
            decreases squares@.len() - k,
        {
            let i = squares[k].bit_index();
            let ghost old_board = board;
            board = board | (1u64 << i);
            proof {
                assert(squares@.take(k + 1) =~= squares@.take(k as int).push(squares@[k as int]));
                assert forall|sq: Square| bit_set(board, sq.idx() as u64) == squares@.take(k + 1).contains(sq) by {
                    Square::lemma_idx_injective(sq, squares@[k as int]);
                    assert(squares@.take(k + 1).contains(sq) == (squares@.take(k as int).contains(sq) || sq == squares@[k as int]));
                }
            }
            k += 1;
        }
        assert(squares@.take(squares@.len() as int) =~= squares@);
        BitBoard(board)
    }

    /// The board with the given bits.
    pub fn from_val(val: u64) -> (r: BitBoard)
        ensures
            r.0 == val,
    {
        BitBoard(val)
    }

    /// The bits of the board.
    pub fn to_val(self) -> (r: u64)
        ensures
            r == self.0,
    {
        self.0
    }

    /// Adds the square to the set.
    pub fn set_square(&mut self, square: Square)
        ensures
            final(self).0 == old(self).0 | (1u64 << (square.idx() as u64)),
            forall|sq: Square| final(self).has(sq) == (old(self).has(sq) || sq == square),
    {
        let i = square.bit_index();
        self.0 = self.0 | (1u64 << i);
        proof {
            assert forall|sq: Square| self.has(sq) == (old(self).has(sq) || sq == square) by {
                Square::lemma_idx_injective(sq, square);
            }
        }
    }

    /// Removes the square from the set.
    pub fn clear_square(&mut self, square: Square)
        ensures
            final(self).0 == old(self).0 & !(1u64 << (square.idx() as u64)),
            forall|sq: Square| final(self).has(sq) == (old(self).has(sq) && sq != square),
    {
        let i = square.bit_index();
        self.0 = self.0 & !(1u64 << i);
        proof {
            assert forall|sq: Square| self.has(sq) == (old(self).has(sq) && sq != square) by {
                Square::lemma_idx_injective(sq, square);
            }
        }
    }

    /// Moves a piece: removes `src` from the set, then adds `dest`.
    pub fn move_piece(&mut self, src: Square, dest: Square)
        ensures
            final(self).0 == (old(self).0 & !(1u64 << (src.idx() as u64))) | (1u64 << (
            dest.idx() as u64)),
            forall|sq: Square| final(self).has(sq) == ((old(self).has(sq) && sq != src) || sq
                == dest),
    {
        self.clear_square(src);
        self.set_square(dest);
    }

    /// The square is in the set.
    pub fn is_square_set(&self, square: Square) -> (r: bool)
        ensures
            r == self.has(square),
    {
        let i = square.bit_index();
        let v = self.0;
        assert(((v & (1u64 << i)) != 0) == bit_set(v, i)) by (bit_vector)
            requires
                i < 64,
        ;
        v & (1u64 << i) != 0
    }

    /// The set has no square.
    pub fn is_empty(self) -> (r: bool)
        ensures
            r == (self.0 == 0),
            r == (forall|sq: Square| !self.has(sq)),
    {
        proof {
            if self.0 != 0 {
                let i = lemma_nonzero_has_bit(self.0);
                assert(self.has(Square::spec_from_idx(i as int)));
            }
        }
        self.0 == 0
    }

    /// Every square moved one step in `dir`; squares that would leave the board are dropped.
    pub fn shift(self, dir: Direction) -> (r: BitBoard)
        ensures
            r.0 == shift_val(self.0, dir),
    {
        let v = self.0;
        match dir {
            Direction::IncRank => BitBoard(v << 8u64),
            Direction::DecRank => BitBoard(v >> 8u64),
            Direction::IncFile => BitBoard((v & 0x7F7F7F7F7F7F7F7Fu64) << 1u64),
            Direction::DecFile => BitBoard((v & 0xFEFEFEFEFEFEFEFEu64) >> 1u64),
        }
    }

    /// The set with both operands' squares.
    pub fn const_bit_or(self, other: BitBoard) -> (r: BitBoard)
        ensures
            r.0 == self.0 | other.0,
    {
        BitBoard(self.0 | other.0)
    }

    /// The squares in both sets.
    pub fn const_bit_and(self, other: BitBoard) -> (r: BitBoard)
        ensures
            r.0 == self.0 & other.0,
    {
        BitBoard(self.0 & other.0)
    }

    /// The squares in exactly one of the sets.
    pub fn bit_xor(self, other: BitBoard) -> (r: BitBoard)
        ensures
            r.0 == self.0 ^ other.0,
    {
        BitBoard(self.0 ^ other.0)
    }

    /// The two sets are equal.
    pub fn const_equals(self, other: BitBoard) -> (r: bool)
        ensures
            r == (self == other),
    {
        self.0 == other.0
    }

    /// The squares not in the set.
    pub fn const_bit_not(self) -> (r: BitBoard)
        ensures
            r.0 == !self.0,
    {
        BitBoard(!self.0)
    }

    /// The bits of the board minus those of `other`, wrapping around.
    pub fn wrapping_sub(self, other: BitBoard) -> (r: BitBoard)
        ensures
            r.0 == wrapping_sub_u64(self.0, other.0),
    {
        BitBoard(self.0.wrapping_sub(other.0))
    }
}

impl Square {
    /// The square with number `i` (some square when `i` is off the board).
    pub open spec fn spec_from_idx(i: int) -> Square {
        match i as u8 {
            0 => Square::A1,
            1 => Square::B1,
            2 => Square::C1,
            3 => Square::D1,
            4 => Square::E1,
            5 => Square::F1,
            6 => Square::G1,
            7 => Square::H1,
            8 => Square::A2,
            9 => Square::B2,
            10 => Square::C2,
            11 => Square::D2,
            12 => Square::E2,
            13 => Square::F2,
            14 => Square::G2,
            15 => Square::H2,
            16 => Square::A3,
            17 => Square::B3,
            18 => Square::C3,
            19 => Square::D3,
            20 => Square::E3,
            21 => Square::F3,
            22 => Square::G3,
            23 => Square::H3,
            24 => Square::A4,
            25 => Square::B4,
            26 => Square::C4,
            27 => Square::D4,
            28 => Square::E4,
            29 => Square::F4,
            30 => Square::G4,
            31 => Square::H4,
            32 => Square::A5,
            33 => Square::B5,
            34 => Square::C5,
            35 => Square::D5,
            36 => Square::E5,
            37 => Square::F5,
            38 => Square::G5,
            39 => Square::H5,
            40 => Square::A6,
            41 => Square::B6,
            42 => Square::C6,
            43 => Square::D6,
            44 => Square::E6,
            45 => Square::F6,
            46 => Square::G6,
            47 => Square::H6,
            48 => Square::A7,
            49 => Square::B7,
            50 => Square::C7,
            51 => Square::D7,
            52 => Square::E7,
            53 => Square::F7,
            54 => Square::G7,
            55 => Square::H7,
            56 => Square::A8,
            57 => Square::B8,
            58 => Square::C8,
            59 => Square::D8,
            60 => Square::E8,
            61 => Square::F8,
            62 => Square::G8,
            63 => Square::H8,
            _ => Square::H8,
        }
    }

    /// `spec_from_idx` gives back the square's number.
    pub proof fn lemma_from_idx(i: int)
        requires
            0 <= i < 64,
        ensures
            #[trigger] Square::spec_from_idx(i).idx() == i,
    {
    }
}


/// Clearing the lowest set bit, `x & (x - 1)`, keeps every other bit and lowers the word.
proof fn lemma_clear_lowest(x: u64, t: u64, i: u64)
    requires
        x != 0,
        t < 64,
        bit_set(x, t),
        t == 0 || x << ((64 - t) as u64) == 0,
        i < 64,
    ensures
        bit_set(x & ((x - 1) as u64), i) == (bit_set(x, i) && i != t),
        (x & ((x - 1) as u64)) < x,
        i < t ==> !bit_set(x, i),
{
    assert(bit_set(x & ((x - 1) as u64), i) == (bit_set(x, i) && i != t) && (x & ((x - 1) as u64))
        < x && (i < t ==> !bit_set(x, i))) by (bit_vector)
        requires
            x != 0,
            t < 64,
            bit_set(x, t),
            t == 0 || x << ((64 - t) as u64) == 0,
            i < 64,
    ;
}

/// Number of set bits of `v` among bits `0..n`.
pub open spec fn bit_count(v: u64, n: nat) -> nat
    decreases n,
{
    if n == 0 {
        0
    } else {
        bit_count(v, (n - 1) as nat) + if bit_set(v, (n - 1) as u64) {
            1nat
        } else {
            0nat
        }
    }
}

/// Clearing bit `t` lowers the count of bits below `n` by one exactly when `t < n`.
proof fn lemma_bit_count_clear(x: u64, y: u64, t: u64, n: nat)
    requires
        t < 64,
        n <= 64,
        bit_set(x, t),
        forall|i: u64| i < 64 ==> bit_set(y, i) == (bit_set(x, i) && i != t),
    ensures
        bit_count(y, n) + (if t < n {
            1nat
        } else {
            0nat
        }) == bit_count(x, n),
    decreases n,
{
    if n > 0 {
        lemma_bit_count_clear(x, y, t, (n - 1) as nat);
    }
}

/// Counting bits never exceeds the number of positions counted.
pub proof fn lemma_bit_count_bound(x: u64, n: nat)
    ensures
        bit_count(x, n) <= n,
        x == 0 ==> bit_count(x, n) == 0,
    decreases n,
{
    if n > 0 {
        lemma_bit_count_bound(x, (n - 1) as nat);
    }
}

/// Bits of `v` with the byte order reversed: bit `i` of the result is bit `i` mirrored
/// across the middle byte boundary, that is the same file on the mirrored rank.
pub open spec fn bytes_swapped(r: u64, v: u64) -> bool {
    forall|i: u64| i < 64 ==> #[trigger] bit_set(r, i) == bit_set(v, ((7 - i / 8) * 8 + i % 8) as u64)
}

/// The word with its byte order reversed, written with shifts and masks.
pub open spec fn swap_word(v: u64) -> u64 {
    ((v & 0xffu64) << 56u64) | ((v & 0xff00u64) << 40u64) | ((v & 0xff0000u64) << 24u64) | ((v & 0xff000000u64) << 8u64) | ((v
        >> 8u64) & 0xff000000u64) | ((v >> 24u64) & 0xff0000u64) | ((v >> 40u64) & 0xff00u64) | (v >> 56u64)
}

/// Reverses the byte order of the word, so that bit `i` of the result is bit `i` of the
/// mirrored byte.
fn u64_swap_bytes(v: u64) -> (r: u64)
    ensures
        bytes_swapped(r, v),
        r == swap_word(v),
{
    let r = ((v & 0xffu64) << 56u64) | ((v & 0xff00u64) << 40u64) | ((v & 0xff0000u64) << 24u64) | ((v & 0xff000000u64)
        << 8u64) | ((v >> 8u64) & 0xff000000u64) | ((v >> 24u64) & 0xff0000u64) | ((v >> 40u64) & 0xff00u64) | (v >> 56u64);
    assert forall|i: u64| i < 64 implies #[trigger] bit_set(r, i) == bit_set(v, ((7 - i / 8) * 8 + i % 8) as u64) by {
        assert(((((v & 0xffu64) << 56u64) | ((v & 0xff00u64) << 40u64) | ((v & 0xff0000u64) << 24u64) | ((v & 0xff000000u64)
            << 8u64) | ((v >> 8u64) & 0xff000000u64) | ((v >> 24u64) & 0xff0000u64) | ((v >> 40u64) & 0xff00u64) | (v
            >> 56u64)) >> i) & 1u64 == 1u64 <==> (v >> (((7 - i / 8) * 8 + i % 8) as u64)) & 1u64 == 1u64) by (bit_vector)
            requires
                i < 64,
        ;
    }
    r
}

/// The squares of the walk from `sq1` toward `sq2`, strictly between the two: `t` is such
/// a square when it is the walk's square after `k` unit steps, for some `0 < k < steps`.
pub open spec fn strictly_between(sq1: Square, sq2: Square, t: Square) -> bool {
    let dr = if sq2.rank() > sq1.rank() { 1int } else if sq2.rank() < sq1.rank() { -1int } else { 0int };
    let df = if sq2.file() > sq1.file() { 1int } else if sq2.file() < sq1.file() { -1int } else { 0int };
    let k = walk_index(sq1, dr, df, t);
    &&& 0 < k < walk_index(sq1, dr, df, sq2)
    &&& t.rank() == walk_rank(sq1, dr, k)
    &&& t.file() == walk_file(sq1, df, k)
}

/// The rank reached after `k` unit steps of rank direction `dr` from `sq`.
pub open spec fn walk_rank(sq: Square, dr: int, k: int) -> int {
    if dr == 1 { sq.rank() + k } else if dr == -1 { sq.rank() - k } else { sq.rank() }
}

/// The file reached after `k` unit steps of file direction `df` from `sq`.
pub open spec fn walk_file(sq: Square, df: int, k: int) -> int {
    if df == 1 { sq.file() + k } else if df == -1 { sq.file() - k } else { sq.file() }
}

/// The number of steps from `sq` to `t` along the walk of direction `(dr, df)`, read off
/// the rank when the walk changes rank, else off the file.
pub open spec fn walk_index(sq: Square, dr: int, df: int, t: Square) -> int {
    if dr == 1 {
        t.rank() - sq.rank()
    } else if dr == -1 {
        sq.rank() - t.rank()
    } else if df == 1 {
        t.file() - sq.file()
    } else if df == -1 {
        sq.file() - t.file()
    } else {
        0
    }
}

/// The square number one step from square number `s` in `dir`, or -1 off the board.
pub open spec fn shift_dest(s: int, dir: Direction) -> int {
    match dir {
        Direction::IncRank => if s < 56 { s + 8 } else { -1 },
        Direction::DecRank => if s >= 8 { s - 8 } else { -1 },
        Direction::IncFile => if s % 8 != 7 { s + 1 } else { -1 },
        Direction::DecFile => if s % 8 != 0 { s - 1 } else { -1 },
    }
}

/// A one-square board moved one step lands on the neighbouring square, or leaves the board.
pub proof fn lemma_shift_single(s: u64, dir: Direction)
    requires
        s < 64,
    ensures
        shift_val(1u64 << s, dir) == if shift_dest(s as int, dir) >= 0 {
            1u64 << (shift_dest(s as int, dir) as u64)
        } else {
            0u64
        },
{
    let v = shift_val(1u64 << s, dir);
    let w = if shift_dest(s as int, dir) >= 0 { 1u64 << (shift_dest(s as int, dir) as u64) } else { 0u64 };
    assert forall|t: u64| t < 64 implies bit_set(v, t) == bit_set(w, t) by {
        lemma_shift_bit(1u64 << s, dir, t);
    }
    lemma_bits_ext(v, w);
}

/// One-square boards are equal exactly when their squares are.
pub proof fn lemma_single_bit_eq(a: u64, b: u64)
    requires
        a < 64,
        b < 64,
    ensures
        ((1u64 << a) == (1u64 << b)) == (a == b),
{
    if a != b {
        assert(bit_set(1u64 << a, a));
        assert(!bit_set(1u64 << b, a));
    }
}

/// The walk toward an aligned square reaches it, staying on the board.
proof fn lemma_walk_end(sq1: Square, sq2: Square, dr: int, df: int)
    requires
        aligned(sq1, sq2),
        dr == (if sq2.rank() > sq1.rank() { 1int } else if sq2.rank() < sq1.rank() { -1int } else { 0int }),
        df == (if sq2.file() > sq1.file() { 1int } else if sq2.file() < sq1.file() { -1int } else { 0int }),
    ensures
        walk_index(sq1, dr, df, sq2) >= 0,
        walk_rank(sq1, dr, walk_index(sq1, dr, df, sq2)) == sq2.rank(),
        walk_file(sq1, df, walk_index(sq1, dr, df, sq2)) == sq2.file(),
        dr != 0 || df != 0 || walk_index(sq1, dr, df, sq2) == 0,
{
}

/// Every square of the walk up to the end lies on the board.
proof fn lemma_walk_bounds(sq1: Square, dr: int, df: int, i: int, n: int)
    requires
        0 <= i <= n,
        0 <= walk_rank(sq1, dr, n) < 8,
        0 <= walk_file(sq1, df, n) < 8,
    ensures
        0 <= walk_rank(sq1, dr, i) < 8,
        0 <= walk_file(sq1, df, i) < 8,
        0 <= walk_sq(sq1, dr, df, i) < 64,
        walk_sq(sq1, dr, df, i) == walk_rank(sq1, dr, i) * 8 + walk_file(sq1, df, i),
{
}

/// A square on the walk is the walk's square at its own walk index.
proof fn lemma_walk_index_of_walk(sq1: Square, dr: int, df: int, i: int, t: Square)
    requires
        -1 <= dr <= 1,
        -1 <= df <= 1,
        dr != 0 || df != 0,
        0 <= walk_rank(sq1, dr, i) < 8,
        0 <= walk_file(sq1, df, i) < 8,
    ensures
        (t.idx() == walk_rank(sq1, dr, i) * 8 + walk_file(sq1, df, i)) == (walk_index(sq1, dr, df, t) == i
            && t.rank() == walk_rank(sq1, dr, i) && t.file() == walk_file(sq1, df, i)),
{
}

/// The square number of the walk's square after `k` steps.
pub open spec fn walk_sq(sq: Square, dr: int, df: int, k: int) -> u64 {
    (walk_rank(sq, dr, k) * 8 + walk_file(sq, df, k)) as u64
}

/// `t` is the walk's square after `k` steps for some `0 < k <= i`.
pub open spec fn on_walk(sq: Square, dr: int, df: int, t: Square, i: int) -> bool {
    let k = walk_index(sq, dr, df, t);
    &&& 0 < k <= i
    &&& t.rank() == walk_rank(sq, dr, k)
    &&& t.file() == walk_file(sq, df, k)
}

/// The shifts that make one step of the walk from `sq1` toward `sq2`: a rank step then a
/// file step on a diagonal, else the one step along the rank or file.
pub open spec fn walk_dirs(sq1: Square, sq2: Square, d0: Direction, d1: Direction, two: bool) -> bool {
    &&& two == (sq1.rank() != sq2.rank() && sq1.file() != sq2.file())
    &&& sq1.file() == sq2.file() ==> d0 == (if sq1.rank() < sq2.rank() { Direction::IncRank } else { Direction::DecRank })
    &&& sq1.file() != sq2.file() && sq1.rank() == sq2.rank() ==> d0 == (if sq1.file() < sq2.file() { Direction::IncFile } else { Direction::DecFile })
    &&& two ==> d0 == (if sq1.rank() < sq2.rank() { Direction::IncRank } else { Direction::DecRank })
    &&& two ==> d1 == (if sq1.file() < sq2.file() { Direction::IncFile } else { Direction::DecFile })
}

/// The walk's square after `i` steps is `sq2` exactly when `i` is the walk's length.
proof fn lemma_walk_at(sq1: Square, sq2: Square, dr: int, df: int, i: int)
    requires
        aligned(sq1, sq2),
        dr == (if sq2.rank() > sq1.rank() { 1int } else if sq2.rank() < sq1.rank() { -1int } else { 0int }),
        df == (if sq2.file() > sq1.file() { 1int } else if sq2.file() < sq1.file() { -1int } else { 0int }),
        0 <= i <= walk_index(sq1, dr, df, sq2),
    ensures
        walk_sq(sq1, dr, df, i) < 64,
        ((1u64 << walk_sq(sq1, dr, df, i)) == (1u64 << (sq2.idx() as u64))) == (i == walk_index(sq1, dr, df, sq2)),
{
    lemma_walk_end(sq1, sq2, dr, df);
    lemma_walk_bounds(sq1, dr, df, i, walk_index(sq1, dr, df, sq2));
    lemma_single_bit_eq(walk_sq(sq1, dr, df, i), sq2.idx() as u64);
}

/// The neighbour of the square at rank `rk` and file `fl`, in terms of rank and file.
proof fn lemma_dest_rank_file(rk: int, fl: int, d: Direction)
    requires
        0 <= rk < 8,
        0 <= fl < 8,
    ensures
        shift_dest(rk * 8 + fl, d) == match d {
            Direction::IncRank => if rk < 7 { (rk + 1) * 8 + fl } else { -1 },
            Direction::DecRank => if rk > 0 { (rk - 1) * 8 + fl } else { -1 },
            Direction::IncFile => if fl < 7 { rk * 8 + fl + 1 } else { -1 },
            Direction::DecFile => if fl > 0 { rk * 8 + fl - 1 } else { -1 },
        },
{
    assert((rk * 8 + fl) % 8 == fl);
}

/// One step of the walk, on plain ranks and files.
proof fn lemma_step_shifts(rk: int, fl: int, dr: int, df: int, d0: Direction, d1: Direction, two: bool)
    requires
        0 <= rk < 8,
        0 <= fl < 8,
        0 <= rk + dr < 8,
        0 <= fl + df < 8,
        -1 <= dr <= 1,
        -1 <= df <= 1,
        two == (dr != 0 && df != 0),
        dr != 0 || df != 0,
        dr != 0 ==> d0 == (if dr == 1 { Direction::IncRank } else { Direction::DecRank }),
        dr == 0 ==> d0 == (if df == 1 { Direction::IncFile } else { Direction::DecFile }),
        two ==> d1 == (if df == 1 { Direction::IncFile } else { Direction::DecFile }),
    ensures
        (if two { shift_val(shift_val(1u64 << ((rk * 8 + fl) as u64), d0), d1) } else { shift_val(1u64 << ((rk * 8 + fl) as u64), d0) })
            == 1u64 << (((rk + dr) * 8 + fl + df) as u64),
{
    lemma_dest_rank_file(rk, fl, d0);
    lemma_shift_single((rk * 8 + fl) as u64, d0);
    if two {
        lemma_dest_rank_file(rk + dr, fl, d1);
        lemma_shift_single(((rk + dr) * 8 + fl) as u64, d1);
    }
}

/// The shifts of one walk step take the walk's square after `i` steps to the next one.
#[verifier::rlimit(40)]
proof fn lemma_walk_step(sq1: Square, sq2: Square, dr: int, df: int, i: int, d0: Direction, d1: Direction, two: bool)
    requires
        aligned(sq1, sq2),
        dr == (if sq2.rank() > sq1.rank() { 1int } else if sq2.rank() < sq1.rank() { -1int } else { 0int }),
        df == (if sq2.file() > sq1.file() { 1int } else if sq2.file() < sq1.file() { -1int } else { 0int }),
        0 <= i < walk_index(sq1, dr, df, sq2),
        walk_dirs(sq1, sq2, d0, d1, two),
    ensures
        (if two { shift_val(shift_val(1u64 << walk_sq(sq1, dr, df, i), d0), d1) } else { shift_val(1u64 << walk_sq(sq1, dr, df, i), d0) })
            == 1u64 << walk_sq(sq1, dr, df, i + 1),
{
    let n = walk_index(sq1, dr, df, sq2);
    lemma_walk_end(sq1, sq2, dr, df);
    lemma_walk_bounds(sq1, dr, df, i, n);
    lemma_walk_bounds(sq1, dr, df, i + 1, n);
    let rk = walk_rank(sq1, dr, i);
    let fl = walk_file(sq1, df, i);
    assert(walk_rank(sq1, dr, i + 1) == rk + dr);
    assert(walk_file(sq1, df, i + 1) == fl + df);
    lemma_step_shifts(rk, fl, dr, df, d0, d1, two);
}

/// Adding the walk's square after `i` steps to the squares of the first `i - 1` steps.
proof fn lemma_walk_ray_grow(sq1: Square, sq2: Square, dr: int, df: int, i: int, old_ray: BitBoard, curr: BitBoard, ray: BitBoard)
    requires
        aligned(sq1, sq2),
        dr == (if sq2.rank() > sq1.rank() { 1int } else if sq2.rank() < sq1.rank() { -1int } else { 0int }),
        df == (if sq2.file() > sq1.file() { 1int } else if sq2.file() < sq1.file() { -1int } else { 0int }),
        0 < i <= walk_index(sq1, dr, df, sq2),
        curr.0 == 1u64 << walk_sq(sq1, dr, df, i),
        forall|t: Square| old_ray.has(t) == on_walk(sq1, dr, df, t, i - 1),
        ray.0 == old_ray.0 | curr.0,
    ensures
        forall|t: Square| ray.has(t) == on_walk(sq1, dr, df, t, i),
{
    let n = walk_index(sq1, dr, df, sq2);
    lemma_walk_end(sq1, sq2, dr, df);
    lemma_walk_bounds(sq1, dr, df, i, n);
    assert forall|t: Square| ray.has(t) == on_walk(sq1, dr, df, t, i) by {
        let ti = t.idx() as u64;
        assert(ti < 64);
        assert(bit_set(ray.0, ti) == (bit_set(old_ray.0, ti) || bit_set(curr.0, ti)));
        assert(old_ray.has(t) == on_walk(sq1, dr, df, t, i - 1));
        assert(bit_set(curr.0, ti) == (ti == walk_sq(sq1, dr, df, i)));
        lemma_walk_index_of_walk(sq1, dr, df, i, t);
    }
}

/// Removing `sq2` from the walk's squares leaves those strictly between.
proof fn lemma_walk_ray_final(sq1: Square, sq2: Square, dr: int, df: int, ray: BitBoard, end: BitBoard, r: BitBoard)
    requires
        aligned(sq1, sq2),
        dr == (if sq2.rank() > sq1.rank() { 1int } else if sq2.rank() < sq1.rank() { -1int } else { 0int }),
        df == (if sq2.file() > sq1.file() { 1int } else if sq2.file() < sq1.file() { -1int } else { 0int }),
        forall|t: Square| ray.has(t) == on_walk(sq1, dr, df, t, walk_index(sq1, dr, df, sq2)),
        end.0 == 1u64 << (sq2.idx() as u64),
        r.0 == ray.0 & !end.0,
    ensures
        forall|t: Square| r.has(t) == strictly_between(sq1, sq2, t),
{
    lemma_walk_end(sq1, sq2, dr, df);
    assert forall|t: Square| r.has(t) == strictly_between(sq1, sq2, t) by {
        let ti = t.idx() as u64;
        Square::lemma_idx_injective(t, sq2);
        assert(bit_set(r.0, ti) == (bit_set(ray.0, ti) && !bit_set(end.0, ti)));
        assert(ray.has(t) == on_walk(sq1, dr, df, t, walk_index(sq1, dr, df, sq2)));
        assert(bit_set(end.0, ti) == (t == sq2));
        if on_walk(sq1, dr, df, t, walk_index(sq1, dr, df, sq2)) && walk_index(sq1, dr, df, t) == walk_index(sq1, dr, df, sq2) {
            assert(t.rank() == sq2.rank() && t.file() == sq2.file());
            assert(t.idx() == sq2.idx());
        }
    }
}

/// The squares lie on one rank, one file or one diagonal.
pub open spec fn aligned(sq1: Square, sq2: Square) -> bool {
    ||| sq1.rank() == sq2.rank()
    ||| sq1.file() == sq2.file()
    ||| sq1.rank() - sq2.rank() == sq1.file() - sq2.file()
    ||| sq1.rank() - sq2.rank() == sq2.file() - sq1.file()
}

impl BitBoard {
    /// The lowest square of a nonempty set.
    pub fn get_lsb(&self) -> (r: Square)
        requires
            self.0 != 0,
        ensures
            self.has(r),
            forall|sq: Square| sq.idx() < r.idx() ==> !self.has(sq),
            r.idx() == vstd::std_specs::bits::u64_trailing_zeros(self.0),
    {
        let v = self.0;
        let tz = v.trailing_zeros();
        proof {
            vstd::std_specs::bits::axiom_u64_trailing_zeros(v);
            assert forall|sq: Square| sq.idx() < tz implies !self.has(sq) by {
                let j = sq.idx() as u64;
                assert((v >> j) & 1u64 == 0u64);
            }
        }
        Square::from_u8(tz as u8)
    }

    /// Removes the lowest square of a nonempty set and returns it.
    pub fn pop_lsb(&mut self) -> (r: Square)
        requires
            old(self).0 != 0,
        ensures
            old(self).has(r),
            forall|sq: Square| sq.idx() < r.idx() ==> !old(self).has(sq),
            final(self).0 == old(self).0 & ((old(self).0 - 1) as u64),
            final(self).0 < old(self).0,
            forall|sq: Square| final(self).has(sq) == (old(self).has(sq) && sq != r),
    {
        let lsb = self.get_lsb();
        let x = self.0;
        proof {
            let t = lsb.idx() as u64;
            vstd::std_specs::bits::axiom_u64_trailing_zeros(x);
            lemma_clear_lowest(x, t, 0);
            assert forall|sq: Square| bit_set(x & ((x - 1) as u64), sq.idx() as u64) == (bit_set(x, sq.idx() as u64) && sq != lsb) by {
                lemma_clear_lowest(x, t, sq.idx() as u64);
                Square::lemma_idx_injective(sq, lsb);
            }
        }
        self.0 = x & (x - 1);
        lsb
    }

    /// The squares of the set, lowest first.
    pub fn to_squares(self) -> (r: Vec<Square>)
        ensures
            forall|sq: Square| r@.contains(sq) == self.has(sq),
            forall|i: int, j: int| 0 <= i < j < r@.len() ==> r@[i].idx() < r@[j].idx(),
    {
        let mut sqs: Vec<Square> = Vec::new();
        let mut rest = self;
        while rest.0 != 0
            invariant
                forall|sq: Square| self.has(sq) == (sqs@.contains(sq) || rest.has(sq)),
                forall|sq: Square| sqs@.contains(sq) ==> !rest.has(sq),
                forall|i: int, sq: Square| 0 <= i < sqs@.len() && rest.has(sq) ==> sqs@[i].idx() < sq.idx(),
                forall|i: int, j: int| 0 <= i < j < sqs@.len() ==> sqs@[i].idx() < sqs@[j].idx(),
            decreases rest.0,
        {
            let ghost before = rest;
            let sq = rest.pop_lsb();
            proof {
                assert forall|s: Square| rest.has(s) implies sq.idx() < s.idx() by {
                    Square::lemma_idx_injective(s, sq);
                }
            }
            sqs.push(sq);
        }
        proof {
            assert(rest.0 == 0);
            assert forall|sq: Square| !rest.has(sq) by {}
        }
        sqs
    }

    /// The number of squares in the set.
    pub fn num_squares_set(self) -> (r: u8)
        ensures
            r == bit_count(self.0, 64),
            r <= 64,
    {
        let mut count: u8 = 0;
        let mut rest = self;
        proof {
            lemma_bit_count_bound(self.0, 64);
        }
        while rest.0 != 0
            invariant
                count + bit_count(rest.0, 64) == bit_count(self.0, 64),
                bit_count(self.0, 64) <= 64,
            decreases rest.0,
        {
            let ghost before = rest.0;
            let sq = rest.pop_lsb();
            proof {
                assert forall|i: u64| i < 64 implies bit_set(rest.0, i) == (bit_set(before, i) && i != sq.idx() as u64) by {
                    let s = Square::spec_from_idx(i as int);
                    Square::lemma_from_idx(i as int);
                    Square::lemma_idx_injective(s, sq);
                    assert(rest.has(s) == (BitBoard(before).has(s) && s != sq));
                }
                lemma_bit_count_clear(before, rest.0, sq.idx() as u64, 64);
                lemma_bit_count_bound(rest.0, 64);
            }
            count += 1;
        }
        proof {
            lemma_bit_count_bound(rest.0, 64);
        }
        count
    }

    /// The set with its ranks mirrored: every square moves to the same file on rank
    /// `7 - rank`.
    pub fn swap_bytes(&self) -> (r: BitBoard)
        ensures
            bytes_swapped(r.0, self.0),
            r.0 == swap_word(self.0),
            forall|sq: Square| r.has(sq) == self.has(sq.flipped()),
    {
        let r = BitBoard(u64_swap_bytes(self.0));
        proof {
            assert forall|sq: Square| r.has(sq) == self.has(sq.flipped()) by {
                let i = sq.idx() as u64;
                assert(bit_set(r.0, i) == bit_set(self.0, ((7 - i / 8) * 8 + i % 8) as u64));
                Square::lemma_from_idx((7 - sq.idx() / 8) * 8 + sq.idx() % 8);
            }
        }
        r
    }

    /// The squares strictly between two aligned squares, walking from `sq1` to `sq2`.
    pub fn from_ray_excl(sq1: Square, sq2: Square) -> (r: BitBoard)
        requires
            aligned(sq1, sq2),
        ensures
            forall|t: Square| r.has(t) == strictly_between(sq1, sq2, t),
    {
        let (r1, f1) = sq1.to_rank_file();
        let (r2, f2) = sq2.to_rank_file();
        let ghost dr: int = if r2 > r1 { 1 } else if r2 < r1 { -1 } else { 0 };
        let ghost df: int = if f2 > f1 { 1 } else if f2 < f1 { -1 } else { 0 };
        let ghost n: int = walk_index(sq1, dr, df, sq2);
        let dirs: [Direction; 2] = if f1 == f2 {
            if r1 < r2 { [Direction::IncRank, Direction::IncRank] } else { [Direction::DecRank, Direction::DecRank] }
        } else if r1 == r2 {
            if f1 < f2 { [Direction::IncFile, Direction::IncFile] } else { [Direction::DecFile, Direction::DecFile] }
        } else if f1 < f2 {
            if r1 < r2 { [Direction::IncRank, Direction::IncFile] } else { [Direction::DecRank, Direction::IncFile] }
        } else {
            if r1 < r2 { [Direction::IncRank, Direction::DecFile] } else { [Direction::DecRank, Direction::DecFile] }
        };
        let num_dirs: usize = if f1 == f2 || r1 == r2 { 1 } else { 2 };
        let mut curr_bb = BitBoard::from_square(sq1);
        let end_bb = BitBoard::from_square(sq2);
        let mut ray = BitBoard::empty();
        let ghost mut i: int = 0;
        proof {
            lemma_walk_end(sq1, sq2, dr, df);
            assert(walk_dirs(sq1, sq2, dirs[0], dirs[1], num_dirs == 2));
        }
        while !curr_bb.const_equals(end_bb)
            invariant
                aligned(sq1, sq2),
                0 <= i <= walk_index(sq1, dr, df, sq2),
                dr == (if sq2.rank() > sq1.rank() { 1int } else if sq2.rank() < sq1.rank() { -1int } else { 0int }),
                df == (if sq2.file() > sq1.file() { 1int } else if sq2.file() < sq1.file() { -1int } else { 0int }),
                walk_dirs(sq1, sq2, dirs[0], dirs[1], num_dirs == 2),
                end_bb.0 == 1u64 << (sq2.idx() as u64),
                curr_bb.0 == 1u64 << walk_sq(sq1, dr, df, i),
                forall|t: Square| ray.has(t) == on_walk(sq1, dr, df, t, i),
            decreases walk_index(sq1, dr, df, sq2) - i,
        {
            proof {
                lemma_walk_end(sq1, sq2, dr, df);
                lemma_walk_at(sq1, sq2, dr, df, i);
            }
            curr_bb = curr_bb.shift(dirs[0]);
            if num_dirs == 2 {
                curr_bb = curr_bb.shift(dirs[1]);
            }
            proof {
                lemma_walk_step(sq1, sq2, dr, df, i, dirs[0], dirs[1], num_dirs == 2);
                i = i + 1;
            }
            let ghost old_ray = ray;
            ray = ray.const_bit_or(curr_bb);
            proof {
                lemma_walk_ray_grow(sq1, sq2, dr, df, i, old_ray, curr_bb, ray);
            }
        }
        proof {
            lemma_walk_end(sq1, sq2, dr, df);
            lemma_walk_at(sq1, sq2, dr, df, i);
        }
        let r = ray.const_bit_and(end_bb.const_bit_not());
        proof {
            lemma_walk_ray_final(sq1, sq2, dr, df, ray, end_bb, r);
        }
        r
    }
}


/// `v` shifted by each direction of `dirs` in turn.
pub open spec fn shift_seq(v: u64, dirs: Seq<Direction>) -> u64
    decreases dirs.len(),
{
    if dirs.len() == 0 {
        v
    } else {
        shift_val(shift_seq(v, dirs.drop_last()), dirs.last())
    }
}

/// `start` together with its shifts by the first `n` lists of directions.
pub open spec fn shifts_union(start: u64, list: Seq<Seq<Direction>>, n: int) -> u64
    decreases n,
{
    if n <= 0 {
        start
    } else {
        shifts_union(start, list, n - 1) | shift_seq(start, list[n - 1])
    }
}

/// The lists of directions held in a vector of vectors.
pub open spec fn dir_lists(v: Seq<Vec<Direction>>) -> Seq<Seq<Direction>> {
    v.map_values(|x: Vec<Direction>| x@)
}

/// The character for square number `i` of a board drawing: `X` when set, else `.`.
pub open spec fn grid_char(v: u64, i: int) -> char {
    if bit_set(v, i as u64) { 'X' } else { '.' }
}

/// The drawing of a board: eight lines of eight characters, the eighth rank first and
/// the A file leftmost, the lines joined by newlines.
pub open spec fn grid_text(v: u64) -> Seq<char> {
    Seq::new(71, |k: int| if k % 9 == 8 { '\n' } else { grid_char(v, (7 - k / 9) * 8 + k % 9) })
}

impl BitBoard {
    /// The squares reached from `square` by each list of steps, without `square` itself.
    pub fn from_square_shifts(square: Square, shift_dirs_list: &Vec<Vec<Direction>>) -> (r: BitBoard)
        ensures
            r.0 == shifts_union(1u64 << (square.idx() as u64), dir_lists(shift_dirs_list@), shift_dirs_list@.len() as int)
                & !(1u64 << (square.idx() as u64)),
    {
        let start = BitBoard::from_square(square);
        let mut acc = start;
        let mut k: usize = 0;
        while k < shift_dirs_list.len()
            invariant
                k <= shift_dirs_list@.len(),
                acc.0 == shifts_union(start.0, dir_lists(shift_dirs_list@), k as int),
            decreases shift_dirs_list@.len() - k,
        {
            let shift_dirs = &shift_dirs_list[k];
            let mut shifted = start;
            let mut j: usize = 0;
            while j < shift_dirs.len()
                invariant
                    j <= shift_dirs@.len(),
                    shifted.0 == shift_seq(start.0, shift_dirs@.take(j as int)),
                decreases shift_dirs@.len() - j,
            {
                proof {
                    assert(shift_dirs@.take(j + 1).drop_last() =~= shift_dirs@.take(j as int));
                }
                shifted = shifted.shift(shift_dirs[j]);
                j += 1;
            }
            proof {
                assert(shift_dirs@.take(shift_dirs@.len() as int) =~= shift_dirs@);
            }
            acc = acc.const_bit_or(shifted);
            k += 1;
        }
        acc.const_bit_and(start.const_bit_not())
    }

    /// The board drawn as text: `X` for a set square, `.` otherwise, the eighth rank on
    /// the first line.
    pub fn to_grid_string(&self) -> (r: String)
        ensures
            r@ == grid_text(self.0),
    {
        let mut board_str = String::new();
        let mut rank: usize = 8;
        while rank > 0
            invariant
                rank <= 8,
                board_str@.len() == if rank == 8 { 0 } else { (8 - rank) * 9 - 1 },
                forall|k: int| 0 <= k < board_str@.len() ==> board_str@[k] == grid_text(self.0)[k],
            decreases rank,
        {
            rank -= 1;
            if rank != 7 {
                crate::text::push_char(&mut board_str, '\n');
            }
            let mut file: usize = 0;
            while file < 8
                invariant
                    rank < 8,
                    file <= 8,
                    board_str@.len() == (7 - rank) * 9 + file,
                    forall|k: int| 0 <= k < board_str@.len() ==> board_str@[k] == grid_text(self.0)[k],
                decreases 8 - file,
            {
                let square = Square::from_u8((rank * 8 + file) as u8);
                let ch = if self.is_square_set(square) { 'X' } else { '.' };
                crate::text::push_char(&mut board_str, ch);
                file += 1;
            }
        }
        proof {
            assert(board_str@ =~= grid_text(self.0));
        }
        board_str
    }
}

impl core::ops::BitOr for BitBoard {
    type Output = BitBoard;

    /// The union of the two sets.
    fn bitor(self, other: BitBoard) -> (r: BitBoard)
        ensures
            r.0 == self.0 | other.0,
    {
        BitBoard(self.0 | other.0)
    }
}

impl vstd::std_specs::ops::BitOrSpecImpl for BitBoard {
    open spec fn obeys_bitor_spec() -> bool {
        true
    }

    open spec fn bitor_req(self, rhs: BitBoard) -> bool {
        true
    }

    open spec fn bitor_spec(self, rhs: BitBoard) -> BitBoard {
        BitBoard(self.0 | rhs.0)
    }
}

impl core::ops::BitAnd for BitBoard {
    type Output = BitBoard;

    /// The intersection of the two sets.
    fn bitand(self, other: BitBoard) -> (r: BitBoard)
        ensures
            r.0 == self.0 & other.0,
    {
        BitBoard(self.0 & other.0)
    }
}

impl vstd::std_specs::ops::BitAndSpecImpl for BitBoard {
    open spec fn obeys_bitand_spec() -> bool {
        true
    }

    open spec fn bitand_req(self, rhs: BitBoard) -> bool {
        true
    }

    open spec fn bitand_spec(self, rhs: BitBoard) -> BitBoard {
        BitBoard(self.0 & rhs.0)
    }
}

impl core::ops::BitXor for BitBoard {
    type Output = BitBoard;

    /// The squares in exactly one of the sets.
    fn bitxor(self, other: BitBoard) -> (r: BitBoard)
        ensures
            r.0 == self.0 ^ other.0,
    {
        BitBoard(self.0 ^ other.0)
    }
}

impl vstd::std_specs::ops::BitXorSpecImpl for BitBoard {
    open spec fn obeys_bitxor_spec() -> bool {
        true
    }

    open spec fn bitxor_req(self, rhs: BitBoard) -> bool {
        true
    }

    open spec fn bitxor_spec(self, rhs: BitBoard) -> BitBoard {
        BitBoard(self.0 ^ rhs.0)
    }
}

impl core::ops::Not for BitBoard {
    type Output = BitBoard;

    /// The complement of the set.
    fn not(self) -> (r: BitBoard)
        ensures
            r.0 == !self.0,
    {
        BitBoard(!self.0)
    }
}

impl vstd::std_specs::ops::NotSpecImpl for BitBoard {
    open spec fn obeys_not_spec() -> bool {
        true
    }

    open spec fn not_req(self) -> bool {
        true
    }

    open spec fn not_spec(self) -> BitBoard {
        BitBoard(!self.0)
    }
}

impl core::ops::Sub for BitBoard {
    type Output = BitBoard;

    /// The bits of the board minus those of `other`, wrapping around.
    fn sub(self, other: BitBoard) -> (r: BitBoard)
        ensures
            r.0 == wrapping_sub_u64(self.0, other.0),
    {
        BitBoard(self.0.wrapping_sub(other.0))
    }
}

impl vstd::std_specs::ops::SubSpecImpl for BitBoard {
    open spec fn obeys_sub_spec() -> bool {
        true
    }

    open spec fn sub_req(self, rhs: BitBoard) -> bool {
        true
    }

    open spec fn sub_spec(self, rhs: BitBoard) -> BitBoard {
        BitBoard(wrapping_sub_u64(self.0, rhs.0))
    }
}

} // verus!
