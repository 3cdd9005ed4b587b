//! The transposition table: evaluations of positions already searched, found again by
//! their hash.
use vstd::prelude::*;

use crate::bitboard::Square;
use crate::evaluation::Eval;
use crate::position::zobrist_hash::ZobristHash;
use crate::position::{Move, Position};

verus! {

/// How a stored evaluation bounds the position's true one.
#[derive(Clone, Copy, Debug, PartialEq, Eq, Structural)]
pub enum EvalType {
    /// The evaluation is exact.
    Exact,
    /// The true evaluation is at most this.
    UpperBound,
    /// The true evaluation is at least this.
    LowerBound,
}

/// The number of an evaluation type: 0, 1 or 2 in the order of the variants.
pub open spec fn eval_type_code(t: EvalType) -> u8 {
    match t {
        EvalType::Exact => 0,
        EvalType::UpperBound => 1,
        EvalType::LowerBound => 2,
    }
}

/// The low six bits of the packed byte hold the depth.
pub const DEPTH_MASK: u8 = 0b00111111;

/// The high two bits of the packed byte hold the evaluation type.
pub const EVAL_TYPE_MASK: u8 = 0b11000000;

/// A stored evaluation: the position's hash, the evaluation, the best move found, and
/// the search depth and evaluation type packed in one byte.
#[derive(Clone, Copy, Debug, PartialEq, Eq, Structural)]
pub struct TranspositionTableEntry {
    pub hash: ZobristHash,
    pub eval: Eval,
    pub best_move: Move,
    pub depth_and_eval_type: u8,
}

impl TranspositionTableEntry {
    /// The entry of an empty slot: the move from A1 to A1 marks it.
    pub open spec fn spec_is_empty(self) -> bool {
        self.best_move.src == Square::A1 && self.best_move.dest == Square::A1
    }

    /// The packed byte holds an evaluation type: its high bits are not both set.
    pub open spec fn wf(self) -> bool {
        self.depth_and_eval_type >> 6u8 != 3
    }

    /// The entry of an empty slot.
    pub fn empty() -> (r: TranspositionTableEntry)
        ensures
            r.spec_is_empty(),
            r.hash.0 == 0,
            r.eval.0 == 0,
            r.best_move.promotion is None,
            r.depth_and_eval_type == 0,
            r.wf(),
    {
        proof {
            assert((0u8 >> 6u8) == 0) by (bit_vector);
        }
        Self { hash: ZobristHash::empty(), best_move: Move::new(Square::A1, Square::A1), eval: Eval::draw(), depth_and_eval_type: 0 }
    }

    /// The slot is empty.
    pub fn is_empty(&self) -> (r: bool)
        ensures
            r == self.spec_is_empty(),
    {
        self.best_move.src == Square::A1 && self.best_move.dest == Square::A1
    }

    /// The byte packing a depth below 64 and an evaluation type.
    pub fn build_depth_and_eval_type(depth: u8, eval_type: EvalType) -> (r: u8)
        requires
            depth & EVAL_TYPE_MASK == 0,
        ensures
            r == (depth & DEPTH_MASK) | (eval_type_code(eval_type) << 6u8),
            r & DEPTH_MASK == depth,
            r >> 6u8 == eval_type_code(eval_type),
    {
        let code: u8 = match eval_type {
            EvalType::Exact => 0,
            EvalType::UpperBound => 1,
            EvalType::LowerBound => 2,
        };
        let r = (depth & DEPTH_MASK) | (code << 6u8);
        proof {
            assert(depth & 0b11000000u8 == 0 && code < 3 ==> ((depth & 0b00111111u8) | (code << 6u8)) & 0b00111111u8 == depth
                && ((depth & 0b00111111u8) | (code << 6u8)) >> 6u8 == code) by (bit_vector);
        }
        r
    }

    /// The search depth stored in the packed byte.
    pub fn depth(&self) -> (r: u8)
        ensures
            r == self.depth_and_eval_type & DEPTH_MASK,
    {
        self.depth_and_eval_type & DEPTH_MASK
    }

    /// The evaluation type stored in the packed byte.
    pub fn eval_type(&self) -> (r: EvalType)
        requires
            self.wf(),
        ensures
            eval_type_code(r) == self.depth_and_eval_type >> 6u8,
    {
        let code = self.depth_and_eval_type >> 6u8;
        proof {
            let b = self.depth_and_eval_type;
            assert(b >> 6u8 <= 3) by (bit_vector);
        }
        if code == 0 {
            EvalType::Exact
        } else if code == 1 {
            EvalType::UpperBound
        } else {
            EvalType::LowerBound
        }
    }
}

/// Packing a depth below 64 with an evaluation type and reading them back gives them
/// back.
pub proof fn lemma_depth_and_eval_type(depth: u8, code: u8)
    requires
        depth < 64,
        code < 3,
    ensures
        depth & EVAL_TYPE_MASK == 0,
        ((depth & DEPTH_MASK) | (code << 6u8)) & DEPTH_MASK == depth,
        ((depth & DEPTH_MASK) | (code << 6u8)) >> 6u8 == code,
        ((depth & DEPTH_MASK) | (code << 6u8)) >> 6u8 != 3,
{
    assert(depth < 64 && code < 3 ==> depth & 0b11000000u8 == 0 && ((depth & 0b00111111u8) | (code << 6u8)) & 0b00111111u8
        == depth && ((depth & 0b00111111u8) | (code << 6u8)) >> 6u8 == code) by (bit_vector);
}

/// A table of entries whose number is a power of two, each position's entry at the slot
/// its hash picks.
pub struct TranspositionTable {
    pub entries: Vec<TranspositionTableEntry>,
}

/// The slot of a hash in a table of `len` slots: the hash's low bits.
pub open spec fn slot_of(hash: u64, len: usize) -> usize {
    (hash as usize) & ((len - 1) as usize)
}

/// The number is a power of two.
pub open spec fn is_power_of_two(n: usize) -> bool {
    n > 0 && n & ((n - 1) as usize) == 0
}

impl TranspositionTable {
    /// The number of slots is a power of two, and every entry holds an evaluation type.
    pub open spec fn wf(&self) -> bool {
        &&& is_power_of_two(self.entries.len())
        &&& forall|i: int| 0 <= i < self.entries.len() ==> (#[trigger] self.entries@[i]).wf()
    }

    /// A table of 2^22 empty slots.
    pub fn new() -> (r: TranspositionTable)
        ensures
            r.wf(),
            r.entries.len() == 0x400000,
            forall|i: int| 0 <= i < r.entries.len() ==> (#[trigger] r.entries@[i]).spec_is_empty(),
    {
        let r = Self::with_num_entries_power_of_two(22);
        assert((1usize << 22usize) == 0x400000) by (bit_vector);
        r
    }

    /// A table of 2^`power_of_two` empty slots.
    pub fn with_num_entries_power_of_two(power_of_two: usize) -> (r: TranspositionTable)
        requires
            power_of_two < usize::BITS,
        ensures
            r.wf(),
            r.entries.len() == 1usize << power_of_two,
            forall|i: int| 0 <= i < r.entries.len() ==> (#[trigger] r.entries@[i]).spec_is_empty(),
            forall|i: int| 0 <= i < r.entries.len() ==> (#[trigger] r.entries@[i]).depth_and_eval_type == 0,
    {
        let num_entries: usize = 1usize << power_of_two;
        proof {
            let p = power_of_two;
            assert(p < usize::BITS ==> (1usize << p) > 0 && (1usize << p) & (((1usize << p) - 1) as usize) == 0) by (bit_vector);
        }
        let mut entries: Vec<TranspositionTableEntry> = Vec::new();
        let mut i: usize = 0;
        while i < num_entries
            invariant
                i <= num_entries,
                entries.len() == i,
                forall|k: int| 0 <= k < i ==> (#[trigger] entries@[k]).spec_is_empty() && entries@[k].wf()
                    && entries@[k].depth_and_eval_type == 0,
            decreases num_entries - i,
        {
            entries.push(TranspositionTableEntry::empty());
            i += 1;
        }
        TranspositionTable { entries }
    }

    /// Empties every slot.
    pub fn clear(&mut self)
        requires
            old(self).wf(),
        ensures
            final(self).wf(),
            final(self).entries.len() == old(self).entries.len(),
            forall|i: int| 0 <= i < final(self).entries.len() ==> (#[trigger] final(self).entries@[i]).spec_is_empty(),
    {
        let n = self.entries.len();
        let mut i: usize = 0;
        while i < n
            invariant
                i <= n,
                n == self.entries.len(),
                is_power_of_two(n),
                forall|k: int| 0 <= k < n ==> (#[trigger] self.entries@[k]).wf(),
                forall|k: int| 0 <= k < i ==> (#[trigger] self.entries@[k]).spec_is_empty(),
            decreases n - i,
        {
            self.entries.set(i, TranspositionTableEntry::empty());
            i += 1;
        }
    }

    /// The slot of the position: the low bits of its hash.
    pub fn index(&self, position: &Position) -> (r: usize)
        requires
            self.wf(),
        ensures
            r == slot_of(position.zobrist_hash.0, self.entries.len()),
            r < self.entries.len(),
    {
        let n = self.entries.len();
        let h = position.zobrist_hash.value() as usize;
        proof {
            assert(n > 0 ==> h & ((n - 1) as usize) <= ((n - 1) as usize)) by (bit_vector);
        }
        h & (n - 1)
    }

    /// The entry stored for the position: the entry in its slot, when the slot is not
    /// empty and holds the position's hash.
    pub fn get(&self, position: &Position) -> (r: Option<&TranspositionTableEntry>)
        requires
            self.wf(),
        ensures
            ({
                let e = self.entries@[slot_of(position.zobrist_hash.0, self.entries.len()) as int];
                r == if !e.spec_is_empty() && e.hash == position.zobrist_hash {
                    Some(&e)
                } else {
                    None
                }
            }),
            r matches Some(e) ==> e.wf(),
    {
        let entry = &self.entries[self.index(position)];
        if !entry.is_empty() {
            if entry.hash == position.zobrist_hash {
                return Some(entry);
            }
        }
        None
    }

    /// Stores an evaluation of the position in its slot, unless the slot holds a
    /// non-empty entry of a greater depth.
    pub fn store(&mut self, position: &Position, eval: Eval, eval_type: EvalType, best_move: Move, depth: u8)
        requires
            old(self).wf(),
            depth < 64,
        ensures
            final(self).wf(),
            final(self).entries.len() == old(self).entries.len(),
            ({
                let i = slot_of(position.zobrist_hash.0, old(self).entries.len()) as int;
                let e = old(self).entries@[i];
                if !e.spec_is_empty() && e.depth_and_eval_type & DEPTH_MASK > depth {
                    final(self).entries@ == old(self).entries@
                } else {
                    final(self).entries@ == old(self).entries@.update(
                        i,
                        TranspositionTableEntry {
                            hash: position.zobrist_hash,
                            eval,
                            best_move,
                            depth_and_eval_type: (depth & DEPTH_MASK) | (eval_type_code(eval_type) << 6u8),
                        },
                    )
                }
            }),
    {
        let idx = self.index(position);
        let entry = &self.entries[idx];
        if !entry.is_empty() {
            if entry.depth() > depth {
                return;
            }
        }
        proof {
            lemma_depth_and_eval_type(depth, eval_type_code(eval_type));
        }
        let depth_and_eval_type = TranspositionTableEntry::build_depth_and_eval_type(depth, eval_type);
        self.entries.set(idx, TranspositionTableEntry { hash: position.zobrist_hash, eval, best_move, depth_and_eval_type });
    }
}

/// A store that writes is read back: after storing an evaluation of a position, with a
/// move other than the empty marker, into a slot that was empty or held a depth no
/// greater, looking the position up gives the stored evaluation, move, depth and type.
pub proof fn lemma_store_then_get(
    before: TranspositionTable,
    after: TranspositionTable,
    position: Position,
    eval: Eval,
    eval_type: EvalType,
    best_move: Move,
    depth: u8,
)
    requires
        before.wf(),
        depth < 64,
        !(best_move.src == Square::A1 && best_move.dest == Square::A1),
        after.entries.len() == before.entries.len(),
        ({
            let i = slot_of(position.zobrist_hash.0, before.entries.len()) as int;
            let e = before.entries@[i];
            &&& e.spec_is_empty() || e.depth_and_eval_type & DEPTH_MASK <= depth
            &&& after.entries@ == before.entries@.update(
                i,
                TranspositionTableEntry {
                    hash: position.zobrist_hash,
                    eval,
                    best_move,
                    depth_and_eval_type: (depth & DEPTH_MASK) | (eval_type_code(eval_type) << 6u8),
                },
            )
        }),
    ensures
        ({
            let e = after.entries@[slot_of(position.zobrist_hash.0, after.entries.len()) as int];
            &&& !e.spec_is_empty() && e.hash == position.zobrist_hash
            &&& e.eval == eval && e.best_move == best_move
            &&& e.depth_and_eval_type & DEPTH_MASK == depth
            &&& e.depth_and_eval_type >> 6u8 == eval_type_code(eval_type)
        }),
{
    let n = before.entries.len();
    let h = position.zobrist_hash.0 as usize;
    assert(n > 0 ==> h & ((n - 1) as usize) <= ((n - 1) as usize)) by (bit_vector);
    lemma_depth_and_eval_type(depth, eval_type_code(eval_type));
}

} // verus!
