use flying_fish::bitboard::Square;
use flying_fish::evaluation::Eval;
use flying_fish::position::{Move, Position};
use flying_fish::transposition_table::{EvalType, TranspositionTable, TranspositionTableEntry};

#[test]
fn depth_and_eval_type_round_trip() {
    for (depth, eval_type) in [(10u8, EvalType::Exact), (63, EvalType::LowerBound), (0, EvalType::UpperBound)] {
        let entry = TranspositionTableEntry {
            depth_and_eval_type: TranspositionTableEntry::build_depth_and_eval_type(depth, eval_type),
            ..TranspositionTableEntry::empty()
        };
        assert_eq!(entry.depth(), depth);
        assert_eq!(entry.eval_type(), eval_type);
    }
}

#[test]
fn empty_entry_is_empty() {
    assert!(TranspositionTableEntry::empty().is_empty());
}

#[test]
fn store_then_get() {
    let mut tt = TranspositionTable::with_num_entries_power_of_two(10);
    let position = Position::start();
    assert!(tt.get(&position).is_none());
    let best = Move::new(Square::E2, Square::E4);
    tt.store(&position, Eval(35), EvalType::Exact, best, 4);
    let entry = tt.get(&position).unwrap();
    assert_eq!(entry.eval, Eval(35));
    assert_eq!(entry.best_move, best);
    assert_eq!(entry.depth(), 4);
    assert_eq!(entry.eval_type(), EvalType::Exact);
}

#[test]
fn shallower_store_keeps_deeper_entry() {
    let mut tt = TranspositionTable::with_num_entries_power_of_two(10);
    let position = Position::start();
    tt.store(&position, Eval(35), EvalType::Exact, Move::new(Square::E2, Square::E4), 6);
    tt.store(&position, Eval(-5), EvalType::UpperBound, Move::new(Square::D2, Square::D4), 2);
    let entry = tt.get(&position).unwrap();
    assert_eq!(entry.eval, Eval(35));
    assert_eq!(entry.depth(), 6);
}

#[test]
fn clear_empties_the_table() {
    let mut tt = TranspositionTable::with_num_entries_power_of_two(8);
    let position = Position::start();
    tt.store(&position, Eval(1), EvalType::LowerBound, Move::new(Square::G1, Square::F3), 1);
    tt.clear();
    assert!(tt.get(&position).is_none());
}
