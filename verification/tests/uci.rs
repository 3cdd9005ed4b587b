use flying_fish::bitboard::Square;
use flying_fish::position::Move;
use flying_fish::search::SearchParams;
use flying_fish::uci::{UCICommand, UCICommandParseError};

fn parse(s: &str) -> UCICommand {
    UCICommand::from_str(s).unwrap()
}

fn go(params: SearchParams) -> UCICommand {
    UCICommand::Go { params }
}

#[test]
fn parse_simple_commands() {
    assert_eq!(parse("uci"), UCICommand::Uci);
    assert_eq!(parse("debug on"), UCICommand::Debug { on: true });
    assert_eq!(parse("debug off"), UCICommand::Debug { on: false });
    assert_eq!(parse("isready"), UCICommand::IsReady);
    assert_eq!(parse("register later"), UCICommand::RegisterLater);
    assert_eq!(parse("ucinewgame"), UCICommand::UciNewGame);
    assert_eq!(parse("stop"), UCICommand::Stop);
    assert_eq!(parse("ponderhit"), UCICommand::PonderHit);
    assert_eq!(parse("quit"), UCICommand::Quit);
    assert_eq!(parse("eval"), UCICommand::Eval);
    assert_eq!(parse("perft_bench"), UCICommand::PerftBenchmark);
}

#[test]
fn parse_setoption() {
    assert_eq!(
        parse("setoption name style value risky"),
        UCICommand::SetOption { name: "style".to_string(), value: Some("risky".to_string()) }
    );
    assert_eq!(
        parse("setoption name multi word name value yes"),
        UCICommand::SetOption { name: "multi word name".to_string(), value: Some("yes".to_string()) }
    );
    assert_eq!(
        parse("setoption name clear hash"),
        UCICommand::SetOption { name: "clear hash".to_string(), value: None }
    );
}

#[test]
fn parse_register() {
    assert_eq!(
        parse("register name Will code 1234"),
        UCICommand::Register { name: "Will".to_string(), code: "1234".to_string() }
    );
    assert!(UCICommand::from_str("register name Will").is_err());
}

#[test]
fn parse_position_startpos_moves() {
    assert_eq!(
        parse("position startpos moves e2e4 e7e5"),
        UCICommand::Position {
            fen: None,
            moves: Some(vec![Move::new(Square::E2, Square::E4), Move::new(Square::E7, Square::E5)]),
        }
    );
    assert_eq!(parse("position startpos"), UCICommand::Position { fen: None, moves: None });
}

#[test]
fn parse_position_fen() {
    assert_eq!(
        parse("position fen 8/8/4Rp2/5P2/1PP1pkP1/7P/1P1r4/7K b - - 0 40"),
        UCICommand::Position { fen: Some("8/8/4Rp2/5P2/1PP1pkP1/7P/1P1r4/7K b - - 0 40".to_string()), moves: None }
    );
    assert_eq!(
        parse("position fen r3k2r/p1ppqpb1/bn2pnp1/3PN3/1p2P3/2N2Q1p/PPPBBPPP/R3K2R w KQkq - 0 1 moves f3f6"),
        UCICommand::Position {
            fen: Some("r3k2r/p1ppqpb1/bn2pnp1/3PN3/1p2P3/2N2Q1p/PPPBBPPP/R3K2R w KQkq - 0 1".to_string()),
            moves: Some(vec![Move::new(Square::F3, Square::F6)]),
        }
    );
}

#[test]
fn parse_position_refusals() {
    assert!(UCICommand::from_str("position fen 8/8/8 w - - 0 1").is_err());
    assert!(UCICommand::from_str("position startpos moves").is_err());
    assert!(UCICommand::from_str("position startpos moves e2").is_err());
    assert!(UCICommand::from_str("position startposx").is_err());
}

#[test]
fn parse_go_search_moves() {
    assert_eq!(
        parse("go searchmoves e2e4 e7e5"),
        go(SearchParams {
            search_moves: Some(vec![Move::new(Square::E2, Square::E4), Move::new(Square::E7, Square::E5)]),
            ..SearchParams::new()
        })
    );
}

#[test]
fn parse_go_single_parameters() {
    assert_eq!(parse("go ponder"), go(SearchParams { ponder: true, ..SearchParams::new() }));
    assert_eq!(parse("go wtime 1000"), go(SearchParams { white_time: Some(1000), ..SearchParams::new() }));
    assert_eq!(parse("go btime 3"), go(SearchParams { black_time: Some(3), ..SearchParams::new() }));
    assert_eq!(parse("go winc 1000"), go(SearchParams { white_inc: Some(1000), ..SearchParams::new() }));
    assert_eq!(parse("go binc 3"), go(SearchParams { black_inc: Some(3), ..SearchParams::new() }));
    assert_eq!(parse("go movestogo 7"), go(SearchParams { moves_to_go: Some(7), ..SearchParams::new() }));
    assert_eq!(parse("go depth 6"), go(SearchParams { max_depth: Some(6), ..SearchParams::new() }));
    assert_eq!(parse("go nodes 10000"), go(SearchParams { max_nodes: Some(10000), ..SearchParams::new() }));
    assert_eq!(parse("go mate 18"), go(SearchParams { mate: Some(18), ..SearchParams::new() }));
    assert_eq!(parse("go movetime 100"), go(SearchParams { move_time: Some(100), ..SearchParams::new() }));
    assert_eq!(parse("go infinite"), go(SearchParams { infinite: true, ..SearchParams::new() }));
}

#[test]
fn parse_go_combined_parameters() {
    assert_eq!(
        parse("go infinite wtime 1000"),
        go(SearchParams { infinite: true, white_time: Some(1000), ..SearchParams::new() })
    );
    assert_eq!(
        parse("go depth 10 searchmoves a2a4 b2b4"),
        go(SearchParams {
            max_depth: Some(10),
            search_moves: Some(vec![Move::new(Square::A2, Square::A4), Move::new(Square::B2, Square::B4)]),
            ..SearchParams::new()
        })
    );
    assert_eq!(parse("go depth 3 depth 5"), go(SearchParams { max_depth: Some(3), ..SearchParams::new() }));
}

#[test]
fn parse_go_refusals() {
    assert!(UCICommand::from_str("go").is_err());
    assert!(UCICommand::from_str("go ").is_err());
    assert!(UCICommand::from_str("go depth").is_err());
    assert!(UCICommand::from_str("go depth 256").is_err());
    assert!(UCICommand::from_str("go depth 6 ").is_err());
    assert!(UCICommand::from_str("go wtime x").is_err());
    assert!(UCICommand::from_str("go searchmoves").is_err());
}

#[test]
fn parse_perft_commands() {
    assert_eq!(parse("go perft 5"), UCICommand::Perft { depth: 5 });
    assert_eq!(parse("go perft_full 3"), UCICommand::PerftFull { depth: 3 });
    assert!(UCICommand::from_str("go perft x").is_err());
}

#[test]
fn parse_error_quotes_the_line() {
    assert_eq!(
        UCICommand::from_str("hello"),
        Err(UCICommandParseError("cannot parse: [hello]".to_string()))
    );
    assert!(UCICommand::from_str("ucix").is_err());
    assert!(UCICommand::from_str("debug maybe").is_err());
}

#[test]
fn parse_moves_accept_capital_files() {
    assert_eq!(
        parse("position startpos moves E2E4"),
        UCICommand::Position { fen: None, moves: Some(vec![Move::new(Square::E2, Square::E4)]) }
    );
}
