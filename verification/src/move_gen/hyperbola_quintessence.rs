//! Sliding pieces' attacks by hyperbola quintessence: along a file or a diagonal the
//! attacks are `(o - 2r) ^ reverse(reverse(o) - 2 reverse(r))` within the line, with the
//! byte order of the board standing for the reversal; along a rank they are looked up in
//! a table of the eight-square patterns.
use vstd::prelude::*;

use crate::bitboard::{swap_word, wrapping_sub_u64, BitBoard, Square};
use crate::bits::bit_set;
use crate::move_gen::masks::{on_line, MaskType, MasksList};
use crate::position::Piece;

verus! {

/// The bits of a byte in reverse order.
pub open spec fn rev8(x: u8) -> u8 {
    ((x & 1u8) << 7u8) | ((x & 2u8) << 5u8) | ((x & 4u8) << 3u8) | ((x & 8u8) << 1u8) | ((x & 16u8) >> 1u8) | ((x & 32u8)
        >> 3u8) | ((x & 64u8) >> 5u8) | ((x & 128u8) >> 7u8)
}

/// Reverses the order of the bits of a byte.
pub fn reverse_bits_u8(x: u8) -> (r: u8)
    ensures
        r == rev8(x),
{
    ((x & 1u8) << 7u8) | ((x & 2u8) << 5u8) | ((x & 4u8) << 3u8) | ((x & 8u8) << 1u8) | ((x & 16u8) >> 1u8) | ((x & 32u8)
        >> 3u8) | ((x & 64u8) >> 5u8) | ((x & 128u8) >> 7u8)
}

/// Subtraction of bytes, wrapping around.
pub open spec fn wrapping_sub_u8(a: u8, b: u8) -> u8 {
    if a >= b {
        (a - b) as u8
    } else {
        (a - b + 256) as u8
    }
}

/// The squares a rook on the bit `rook` attacks to its left on a rank with the
/// `blocking_pieces`: the `o ^ (o - 2r)` trick on one byte.
pub open spec fn left_rank_atk(blocking_pieces: u8, rook: u8) -> u8 {
    (blocking_pieces | rook) ^ wrapping_sub_u8(blocking_pieces, rook)
}

/// The squares a rook attacks to its left on a rank, by `o ^ (o - 2r)`.
pub fn calc_left_rank_atk(blocking_pieces: u8, rook: u8) -> (r: u8)
    ensures
        r == left_rank_atk(blocking_pieces, rook),
{
    let occ = blocking_pieces | rook;
    occ ^ blocking_pieces.wrapping_sub(rook)
}

/// The entry of the rank table for the six inner squares' occupancy `pieces` and a rook
/// on file `file`: its attacks to both sides.
pub open spec fn rank_atk_entry(pieces: int, file: int) -> u8 {
    let shifted = ((pieces as u8) << 1u8) as u8;
    let rook = (1u8 << (file as u8)) as u8;
    left_rank_atk(shifted, rook) | rev8(left_rank_atk(rev8(shifted), rev8(rook)))
}

/// The squares of a rank strictly between files `lo` and `hi`, for `lo < hi`.
pub open spec fn between_files(lo: u8, hi: u8) -> u8 {
    (((1u8 << hi) - (1u8 << lo)) as u8) ^ (1u8 << lo)
}

/// A rook on file `f` of a rank occupied as `occ` attacks the square on file `i`: a
/// square other than its own with no occupied square strictly between the two, the
/// first blocker in each direction included.
pub open spec fn rank_ray(occ: u8, f: u8, i: u8) -> bool {
    &&& i < 8
    &&& i != f
    &&& if i > f { occ & between_files(f, i) == 0 } else { occ & between_files(i, f) == 0 }
}

/// The two directions of the rank trick give exactly the rook's rank ray.
proof fn lemma_rank_trick_ray(q: u8, f: u8, i: u8)
    by (bit_vector)
    requires
        f < 8,
        i < 8,
        (q >> f) & 1u8 == 0u8,
    ensures
        ((left_rank_atk(q, 1u8 << f) | rev8(left_rank_atk(rev8(q), rev8(1u8 << f)))) >> i) & 1u8 == 1u8 <==> rank_ray(q, f, i),
{
}

/// Each entry of the rank table holds exactly the squares a rook on its file attacks
/// along the rank when the six inner squares other than its own are occupied as its
/// index says: the squares other than its own with no occupied square strictly between.
pub proof fn lemma_rank_entry_is_ray(pieces: u8, f: u8, i: u8)
    requires
        pieces < 64,
        f < 8,
        i < 8,
        (((pieces << 1u8) as u8) >> f) & 1u8 == 0u8,
    ensures
        (rank_atk_entry(pieces as int, f as int) >> i) & 1u8 == 1u8 <==> rank_ray((pieces << 1u8) as u8, f, i),
{
    lemma_rank_trick_ray((pieces << 1u8) as u8, f, i);
}

/// The squares of the file of square number `s` strictly between it and square number
/// `t`.
pub open spec fn file_between(s: u64, t: u64) -> u64 {
    let lo = if s < t { s } else { t };
    let hi = if s < t { t } else { s };
    ((((1u64 << hi) - (1u64 << lo)) as u64) ^ (1u64 << lo)) & (0x0101010101010101u64 << (s & 7u64))
}

/// A slider on `sq` attacks `t` along its file over the occupancy `o`: another square of
/// the file with no occupied square strictly between the two, the first blocker in each
/// direction included.
pub open spec fn file_ray(o: u64, sq: Square, t: Square) -> bool {
    &&& t != sq
    &&& t.file() == sq.file()
    &&& o & file_between(sq.idx() as u64, t.idx() as u64) == 0
}

/// Hyperbola quintessence over a file gives exactly the file's ray.
proof fn lemma_file_trick_ray(o: u64, s: u64, t: u64)
    by (bit_vector)
    requires
        s < 64,
        t < 64,
    ensures
        (hq_line(o, (0x0101010101010101u64 << (s & 7u64)) & !(1u64 << s), 1u64 << s) >> t) & 1u64 == 1u64 <==> (t & 7u64
            == s & 7u64 && t != s && o & file_between(s, t) == 0),
{
}

/// The bits of a file's word without its own square, and of a square's word.
proof fn lemma_file_word_bits(s: u64, u: u64)
    by (bit_vector)
    requires
        s < 64,
        u < 64,
    ensures
        ((((0x0101010101010101u64 << (s & 7u64)) & !(1u64 << s)) >> u) & 1u64 == 1u64) == (u != s && u & 7u64 == s & 7u64),
        (((1u64 << s) >> u) & 1u64 == 1u64) == (u == s),
        u & 7u64 == u % 8,
        s & 7u64 == s % 8,
{
}

/// Along a file, the attacks of the slider generator are exactly the file's ray: for every
/// square and occupancy, the squares of the file other than the slider's with no occupied
/// square strictly between.
pub proof fn lemma_file_attacks_are_ray(hq: HyperbolaQuintessence, sq: Square, o: u64, t: Square)
    requires
        hq.wf(),
    ensures
        bit_set(hq_line(o, hq.masks.0@[sq.idx()].file.0, hq.masks.0@[sq.idx()].bit.0), t.idx() as u64) == file_ray(o, sq, t),
{
    let si = sq.idx();
    let s = si as u64;
    Square::lemma_idx_injective(sq, sq);
    Square::lemma_from_idx(si);
    Square::lemma_idx_injective(sq, Square::spec_from_idx(si));
    let m = hq.masks.0@[si];
    assert(m.holds(sq));
    let fw = (0x0101010101010101u64 << (s & 7u64)) & !(1u64 << s);
    let bw = 1u64 << s;
    assert forall|u: Square| #[trigger] m.file.has(u) == BitBoard(fw).has(u) by {
        assert(m.of(MaskType::File).has(u) == on_line(MaskType::File, sq, u));
        Square::lemma_idx_injective(u, sq);
        lemma_file_word_bits(s, u.idx() as u64);
    }
    assert forall|u: Square| #[trigger] m.bit.has(u) == BitBoard(bw).has(u) by {
        assert(m.of(MaskType::Bit).has(u) == on_line(MaskType::Bit, sq, u));
        Square::lemma_idx_injective(u, sq);
        lemma_file_word_bits(s, u.idx() as u64);
    }
    BitBoard::lemma_ext(m.file, BitBoard(fw));
    BitBoard::lemma_ext(m.bit, BitBoard(bw));
    Square::lemma_idx_injective(t, sq);
    lemma_file_word_bits(s, t.idx() as u64);
    lemma_file_trick_ray(o, s, t.idx() as u64);
}

/// The rank table: for each occupancy of the six inner squares and each file, the squares
/// a rook attacks along the rank.
pub fn calc_rank_atks() -> (r: Vec<u8>)
    ensures
        r.len() == 512,
        forall|k: int| 0 <= k < 512 ==> #[trigger] r@[k] == rank_atk_entry(k / 8, k % 8),
{
    let mut list: Vec<u8> = Vec::new();
    let mut pieces: u8 = 0;
    while pieces < 64
        invariant
            pieces <= 64,
            list.len() == pieces as int * 8,
            forall|k: int| 0 <= k < list.len() ==> #[trigger] list@[k] == rank_atk_entry(k / 8, k % 8),
        decreases 64 - pieces,
    {
        let mut rook_shift: u8 = 0;
        while rook_shift < 8
            invariant
                pieces < 64,
                rook_shift <= 8,
                list.len() == pieces as int * 8 + rook_shift,
                forall|k: int| 0 <= k < list.len() ==> #[trigger] list@[k] == rank_atk_entry(k / 8, k % 8),
            decreases 8 - rook_shift,
        {
            let rook: u8 = 1u8 << rook_shift;
            // The first and last squares never block.
            let shifted_pieces: u8 = pieces << 1u8;
            let left_atks = calc_left_rank_atk(shifted_pieces, rook);
            let right_atks = reverse_bits_u8(calc_left_rank_atk(reverse_bits_u8(shifted_pieces), reverse_bits_u8(rook)));
            let atks = left_atks | right_atks;
            proof {
                let k = pieces as int * 8 + rook_shift as int;
                assert(k / 8 == pieces as int && k % 8 == rook_shift as int);
            }
            list.push(atks);
            rook_shift += 1;
        }
        pieces += 1;
    }
    list
}

/// The attacks along one line by hyperbola quintessence: `o` the occupancy, `m` the line
/// without the slider's square, `b` the slider's bit.
pub open spec fn hq_line(o: u64, m: u64, b: u64) -> u64 {
    (wrapping_sub_u64(o & m, b) ^ swap_word(wrapping_sub_u64(swap_word(o & m), swap_word(b)))) & m
}

/// The attacks along the rank of square number `s`, from the rank table.
pub open spec fn rank_word(o: u64, s: int) -> u64 {
    let occ = o & !(1u64 << (s as u64));
    let rank_x8 = (s as u64) & 56u64;
    let inner_x2 = (occ >> rank_x8) & 126u64;
    (rank_atk_entry((inner_x2 / 2) as int, s % 8) as u64) << rank_x8
}

/// The sliding pieces' attack generator: the lines through each square and the rank
/// table.
pub struct HyperbolaQuintessence {
    pub masks: MasksList,
    pub rank_atks: Vec<u8>,
}

impl HyperbolaQuintessence {
    /// The masks are the lines through each square, and the rank table holds its entries.
    pub open spec fn wf(&self) -> bool {
        &&& self.masks.wf()
        &&& self.rank_atks.len() == 512
        &&& forall|k: int| 0 <= k < 512 ==> #[trigger] self.rank_atks@[k] == rank_atk_entry(k / 8, k % 8)
    }

    /// The attacks of a slider of the kind on square number `s` over the occupancy `o`.
    pub open spec fn slider_word(&self, piece: Piece, s: int, o: u64) -> u64 {
        let m = self.masks.0@[s];
        let b = m.bit.0;
        match piece {
            Piece::Bishop => hq_line(o, m.diag.0, b) | hq_line(o, m.anti_diag.0, b),
            Piece::Rook => hq_line(o, m.file.0, b) | rank_word(o, s),
            Piece::Queen => hq_line(o, m.file.0, b) | rank_word(o, s) | hq_line(o, m.diag.0, b) | hq_line(o, m.anti_diag.0, b),
            _ => 0,
        }
    }

    /// Builds the masks and the rank table.
    pub fn new() -> (r: HyperbolaQuintessence)
        ensures
            r.wf(),
    {
        HyperbolaQuintessence { masks: MasksList::new(), rank_atks: calc_rank_atks() }
    }

    /// The attacks along one line: `mask` the line without the slider, `bit_mask` the
    /// slider's square.
    pub fn get_moves(&self, occupancy: BitBoard, mask: BitBoard, bit_mask: BitBoard) -> (r: BitBoard)
        ensures
            r.0 == hq_line(occupancy.0, mask.0, bit_mask.0),
    {
        let forward = occupancy.const_bit_and(mask);
        let reverse = forward.swap_bytes();
        let forward = forward.wrapping_sub(bit_mask);
        let reverse = reverse.wrapping_sub(bit_mask.swap_bytes());
        let forward = forward.bit_xor(reverse.swap_bytes());
        forward.const_bit_and(mask)
    }

    /// The attacks along the square's rank, from the rank table.
    pub fn get_rank_moves(&self, occupancy: BitBoard, square: Square) -> (r: BitBoard)
        requires
            self.wf(),
        ensures
            r.0 == rank_word(occupancy.0, square.idx()),
    {
        let occupancy_without_self = occupancy.const_bit_and(BitBoard::from_square(square).const_bit_not());
        let occ_val = occupancy_without_self.to_val();
        let sq_idx = square.to_u8();
        let file: usize = (sq_idx & 7u8) as usize;
        let rank_x8: u64 = (sq_idx & 56u8) as u64;
        proof {
            assert(sq_idx & 7u8 == sq_idx % 8 && (sq_idx & 56u8) as u64 == (sq_idx as u64) & 56u64 && (sq_idx & 56u8) < 64)
                by (bit_vector);
        }
        let rank_occ_x2: u64 = (occ_val >> rank_x8) & 126u64;
        proof {
            assert(rank_occ_x2 <= 126) by (bit_vector)
                requires
                    rank_occ_x2 == (occ_val >> rank_x8) & 126u64,
            ;
            assert(sq_idx & 7u8 == sq_idx % 8 && (sq_idx & 56u8) as u64 == (sq_idx as u64) & 56u64 && (sq_idx & 56u8) < 64)
                by (bit_vector);
            assert(rank_occ_x2 % 2 == 0) by (bit_vector)
                requires
                    rank_occ_x2 == (occ_val >> rank_x8) & 126u64,
            ;
            let k = 4 * rank_occ_x2 + file;
            assert(k / 8 == rank_occ_x2 / 2 && k % 8 == file);
        }
        let atks: u64 = self.rank_atks[(4 * rank_occ_x2 as usize) + file] as u64;
        BitBoard::from_val(atks << rank_x8)
    }

    /// The attacks of a bishop, rook or queen on the square over the occupancy.
    pub fn gen_moves(&self, piece: Piece, square: Square, occupancy: BitBoard) -> (r: BitBoard)
        requires
            self.wf(),
            piece == Piece::Bishop || piece == Piece::Rook || piece == Piece::Queen,
        ensures
            r.0 == self.slider_word(piece, square.idx(), occupancy.0),
    {
        let masks = self.masks.get(square);
        proof {
            Square::lemma_from_idx(square.idx());
            Square::lemma_idx_injective(square, Square::spec_from_idx(square.idx()));
            assert(*masks == self.masks.0@[square.idx()]);
        }
        let bit_mask = masks.get(MaskType::Bit);
        match piece {
            Piece::Bishop => self.get_moves(occupancy, masks.get(MaskType::Diagonal), bit_mask).const_bit_or(
                self.get_moves(occupancy, masks.get(MaskType::AntiDiagonal), bit_mask),
            ),
            Piece::Rook => self.get_moves(occupancy, masks.get(MaskType::File), bit_mask).const_bit_or(
                self.get_rank_moves(occupancy, square),
            ),
            _ => self.get_moves(occupancy, masks.get(MaskType::File), bit_mask).const_bit_or(
                self.get_rank_moves(occupancy, square),
            ).const_bit_or(self.get_moves(occupancy, masks.get(MaskType::Diagonal), bit_mask)).const_bit_or(
                self.get_moves(occupancy, masks.get(MaskType::AntiDiagonal), bit_mask),
            ),
        }
    }
}

} // verus!
