use flying_fish::bitboard::Square;
use flying_fish::evaluation::Eval;
use flying_fish::move_gen::MoveGen;
use flying_fish::position::{Move, Piece, Position};
use flying_fish::session::{best_move_text, UciAction, UciPhase, UciSession};
use flying_fish::uci::UCICommand;

fn run(session: &mut UciSession, line: &str, finished: bool, move_gen: &MoveGen) -> Vec<UciAction> {
    session.handle(UCICommand::from_str(line).unwrap(), finished, move_gen)
}

fn respond(s: &str) -> UciAction {
    UciAction::Respond(s.to_string())
}

#[test]
fn uci_identifies_the_engine() {
    let move_gen = MoveGen::new();
    let mut session = UciSession::new();
    let actions = run(&mut session, "uci", true, &move_gen);
    assert_eq!(
        actions,
        vec![respond("id name Will's Engine"), respond("id author Will Forman"), respond("uciok")]
    );
    assert_eq!(session.phase, UciPhase::Enabled { position: Position::start() });
}

#[test]
fn commands_before_uci_are_unexpected() {
    let move_gen = MoveGen::new();
    let mut session = UciSession::new();
    assert_eq!(run(&mut session, "isready", true, &move_gen), vec![UciAction::Unexpected(UCICommand::IsReady)]);
    assert_eq!(session, UciSession::new());
    assert_eq!(run(&mut session, "quit", true, &move_gen), vec![UciAction::Quit]);
}

#[test]
fn ready_session_answers_isready() {
    let move_gen = MoveGen::new();
    let mut session = UciSession::new();
    run(&mut session, "uci", true, &move_gen);
    assert_eq!(run(&mut session, "isready", true, &move_gen), vec![respond("readyok")]);
    assert_eq!(run(&mut session, "uci", true, &move_gen), vec![UciAction::Unexpected(UCICommand::Uci)]);
    assert_eq!(run(&mut session, "debug on", true, &move_gen), vec![UciAction::OpenDebugLog]);
    assert_eq!(run(&mut session, "debug off", true, &move_gen), vec![UciAction::CloseDebugLog]);
}

#[test]
fn position_command_sets_the_position() {
    let move_gen = MoveGen::new();
    let mut session = UciSession::new();
    run(&mut session, "uci", true, &move_gen);
    assert!(run(&mut session, "position startpos moves e2e4 e7e5", true, &move_gen).is_empty());
    let mut want = Position::start();
    want.make_move(Move::new(Square::E2, Square::E4));
    want.make_move(Move::new(Square::E7, Square::E5));
    assert_eq!(session.phase, UciPhase::Enabled { position: want });

    let fen = "8/8/4Rp2/5P2/1PP1pkP1/7P/1P1r4/7K b - - 0 40";
    assert!(run(&mut session, &format!("position fen {}", fen), true, &move_gen).is_empty());
    assert_eq!(session.phase, UciPhase::Enabled { position: Position::from_fen(fen).unwrap() });

    assert!(run(&mut session, "ucinewgame", true, &move_gen).is_empty());
    assert_eq!(session.phase, UciPhase::Enabled { position: Position::start() });
}

#[test]
fn impossible_position_fails() {
    let move_gen = MoveGen::new();
    let mut session = UciSession::new();
    run(&mut session, "uci", true, &move_gen);
    let before = session;
    let actions = run(&mut session, "position startpos moves e4e5", true, &move_gen);
    assert_eq!(actions.len(), 1);
    assert!(matches!(actions[0], UciAction::Fail(_)));
    assert_eq!(session, before);
}

#[test]
fn go_starts_one_search_at_a_time() {
    let move_gen = MoveGen::new();
    let mut session = UciSession::new();
    run(&mut session, "uci", true, &move_gen);
    let actions = run(&mut session, "go depth 3", true, &move_gen);
    assert_eq!(actions.len(), 1);
    assert!(matches!(actions[0], UciAction::StartSearch { .. }));
    assert!(session.search_started);
    assert_eq!(
        run(&mut session, "go depth 3", false, &move_gen),
        vec![respond("Can't start new search until previous search completes")]
    );
    assert_eq!(run(&mut session, "stop", false, &move_gen), vec![UciAction::StopSearch]);
    assert!(!session.search_started);
    let actions = run(&mut session, "stop", true, &move_gen);
    assert!(matches!(actions[0], UciAction::Fail(_)));
}

#[test]
fn eval_and_perft_commands() {
    let move_gen = MoveGen::new();
    let mut session = UciSession::new();
    run(&mut session, "uci", true, &move_gen);
    assert_eq!(run(&mut session, "eval", true, &move_gen), vec![UciAction::ReportEval { eval: Eval(0) }]);
    assert_eq!(
        run(&mut session, "go perft 3", true, &move_gen),
        vec![UciAction::RunPerft { position: Position::start(), depth: 3 }]
    );
    assert!(matches!(run(&mut session, "go perft 0", true, &move_gen)[0], UciAction::Fail(_)));
    assert_eq!(
        run(&mut session, "go perft_full 2", true, &move_gen),
        vec![UciAction::RunPerftFull { position: Position::start(), depth: 2 }]
    );
    assert_eq!(run(&mut session, "perft_bench", true, &move_gen), vec![UciAction::RunPerftBenchmark]);
}

#[test]
fn best_move_lines() {
    assert_eq!(best_move_text(Move::new(Square::E2, Square::E4)), "bestmove e2e4");
    assert_eq!(best_move_text(Move::with_promotion(Square::A7, Square::A8, Piece::Queen)), "bestmove a7a8q");
    assert_eq!(Move::new(Square::E2, Square::E4).to_display_string(), "E2E4");
    assert_eq!(Move::with_promotion(Square::A7, Square::A8, Piece::Knight).to_display_string(), "A7A8n");
}
