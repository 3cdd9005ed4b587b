//! The decisions of a UCI session: from where the protocol stands and a command, the next
//! state and what the driver has to do (write a line, start or stop a search, count
//! positions, quit).
use vstd::prelude::*;

use crate::bitboard::Square;
use crate::evaluation::{spec_evaluate, Eval, PositionEvaluator};
use crate::move_gen::MoveGen;
use crate::perft::has_king;
use crate::position::fen::{fen_fields, fen_state, fen_valid, placed_upto, sided_upto};
use crate::position::{Move, Piece, Position, Side};
use crate::search::SearchParams;
use crate::algebraic_notation::push_square_name;
use crate::position::fen::square_name;
use crate::text::{chars_string, push_char, str_chars};
use crate::uci::{go_fields_of, CommandView, GoFields, UCICommand};

verus! {

/// Where the protocol stands: waiting for `uci`, or ready with a current position.
#[derive(Clone, Copy, Debug, PartialEq, Eq)]
pub enum UciPhase {
    Initial,
    Enabled { position: Position },
}

/// A session: its phase, and whether a search was started and not stopped since.
#[derive(Clone, Copy, Debug, PartialEq, Eq)]
pub struct UciSession {
    pub phase: UciPhase,
    pub search_started: bool,
}

/// What the driver has to do after a command.
#[derive(Clone, Debug, PartialEq, Eq)]
pub enum UciAction {
    /// Write the line.
    Respond(String),
    /// Report that the command does not fit the current state.
    Unexpected(UCICommand),
    /// Start writing the exchanged lines to a log file.
    OpenDebugLog,
    /// Stop writing the exchanged lines to a log file.
    CloseDebugLog,
    /// Search the position in the background with the parameters.
    StartSearch { position: Position, params: SearchParams },
    /// Tell the running search to stop.
    StopSearch,
    /// Report the evaluation.
    ReportEval { eval: Eval },
    /// Count the positions below the position to the depth and report them by move.
    RunPerft { position: Position, depth: u64 },
    /// Count the positions below the position to the depth, with their details.
    RunPerftFull { position: Position, depth: u64 },
    /// Count the positions of the benchmark set.
    RunPerftBenchmark,
    /// Leave the program.
    Quit,
    /// The command cannot be carried out: the session ends with the message.
    Fail(String),
}

/// An action as values.
pub enum ActionView {
    Respond(Seq<char>),
    Unexpected(CommandView),
    OpenDebugLog,
    CloseDebugLog,
    StartSearch { position: Position, params: GoFields },
    StopSearch,
    ReportEval { eval: Eval },
    RunPerft { position: Position, depth: u64 },
    RunPerftFull { position: Position, depth: u64 },
    RunPerftBenchmark,
    Quit,
    Fail,
}

impl View for UciAction {
    type V = ActionView;

    open spec fn view(&self) -> ActionView {
        match self {
            UciAction::Respond(s) => ActionView::Respond(s@),
            UciAction::Unexpected(c) => ActionView::Unexpected(c@),
            UciAction::OpenDebugLog => ActionView::OpenDebugLog,
            UciAction::CloseDebugLog => ActionView::CloseDebugLog,
            UciAction::StartSearch { position, params } => ActionView::StartSearch {
                position: *position,
                params: go_fields_of(*params),
            },
            UciAction::StopSearch => ActionView::StopSearch,
            UciAction::ReportEval { eval } => ActionView::ReportEval { eval: *eval },
            UciAction::RunPerft { position, depth } => ActionView::RunPerft { position: *position, depth: *depth },
            UciAction::RunPerftFull { position, depth } => ActionView::RunPerftFull { position: *position, depth: *depth },
            UciAction::RunPerftBenchmark => ActionView::RunPerftBenchmark,
            UciAction::Quit => ActionView::Quit,
            UciAction::Fail(_) => ActionView::Fail,
        }
    }
}

/// The actions as values.
pub open spec fn action_views(v: Seq<UciAction>) -> Seq<ActionView> {
    v.map_values(|a: UciAction| a@)
}

/// The starting position of a game.
pub open spec fn is_start_position(p: Position) -> bool {
    &&& p.state.to_move == Side::White
    &&& p.state.half_move_clock == 0
    &&& p.state.en_passant_target is None
    &&& p.state.castling_rights.white_king_side && p.state.castling_rights.white_queen_side
    &&& p.state.castling_rights.black_king_side && p.state.castling_rights.black_queen_side
    &&& p.state.full_move_counter == 1
    &&& p.sides.white.0 == 0xFFFF && p.sides.black.0 == 0xFFFF_0000_0000_0000
    &&& p.pieces.pawns.white.0 == 0xFF00 && p.pieces.pawns.black.0 == 0x00FF_0000_0000_0000
    &&& p.pieces.knights.white.0 == 0x42 && p.pieces.knights.black.0 == 0x4200_0000_0000_0000
    &&& p.pieces.bishops.white.0 == 0x24 && p.pieces.bishops.black.0 == 0x2400_0000_0000_0000
    &&& p.pieces.rooks.white.0 == 0x81 && p.pieces.rooks.black.0 == 0x8100_0000_0000_0000
    &&& p.pieces.queens.white.0 == 0x08 && p.pieces.queens.black.0 == 0x0800_0000_0000_0000
    &&& p.pieces.kings.white.0 == 0x10 && p.pieces.kings.black.0 == 0x1000_0000_0000_0000
    &&& p.hash_ok()
}

/// The position is the one a FEN string describes.
pub open spec fn read_from_fen(p: Position, fen: Seq<char>) -> bool {
    let f = fen_fields(fen);
    &&& fen_valid(f)
    &&& p.state == fen_state(f)
    &&& forall|piece: Piece, side: Side, sq: Square| #[trigger] p.pieces.board(piece, side).has(sq)
        == placed_upto(f[0], f[0].len() as int, piece, side, sq)
    &&& forall|side: Side, sq: Square| #[trigger] p.sides.of(side).has(sq) == sided_upto(f[0], f[0].len() as int, side, sq)
    &&& p.hash_ok()
}

/// The position after making the moves in turn, when each of them can be made.
pub open spec fn apply_moves(p: Position, ms: Seq<Move>) -> Option<Position>
    decreases ms.len(),
{
    if ms.len() == 0 {
        Some(p)
    } else if p.make_move_ok(ms[0]) {
        apply_moves(p.spec_make_move(ms[0]), ms.drop_first())
    } else {
        None
    }
}

/// What a `position` command reaches: the start or the FEN's position, then the moves
/// made in turn; nothing when the FEN string is refused or a move cannot be made.
pub open spec fn position_reached(fen: Option<Seq<char>>, ms: Seq<Move>, r: Option<Position>) -> bool {
    match fen {
        None => exists|p0: Position| is_start_position(p0) && apply_moves(p0, ms) == r,
        Some(f) => if fen_valid(fen_fields(f)) {
            exists|p0: Position| read_from_fen(p0, f) && apply_moves(p0, ms) == r
        } else {
            r is None
        },
    }
}

/// The moves of a `position` command, none when it lists none.
pub open spec fn listed_moves(moves: Option<Seq<Move>>) -> Seq<Move> {
    match moves {
        Some(m) => m,
        None => seq![],
    }
}

/// The lines that answer `uci`: the engine's name and author, then `uciok`.
pub open spec fn identification() -> Seq<ActionView> {
    seq![
        ActionView::Respond("id name Will's Engine"@),
        ActionView::Respond("id author Will Forman"@),
        ActionView::Respond("uciok"@),
    ]
}

/// What a ready session with the current position does with a command other than `quit`.
pub open spec fn enabled_step(
    position: Position,
    s: UciSession,
    c: CommandView,
    finished: bool,
    g: MoveGen,
    t: UciSession,
    acts: Seq<ActionView>,
) -> bool {
    match c {
        CommandView::UciNewGame => {
            &&& t.search_started == s.search_started
            &&& t.phase matches UciPhase::Enabled { position: q } && is_start_position(q)
            &&& acts.len() == 0
        },
        CommandView::Position { fen, moves } => {
            ||| {
                &&& t.search_started == s.search_started
                &&& t.phase matches UciPhase::Enabled { position: q } && position_reached(fen, listed_moves(moves), Some(q))
                &&& acts.len() == 0
            }
            ||| {
                &&& position_reached(fen, listed_moves(moves), None)
                &&& t == s
                &&& acts == seq![ActionView::Fail]
            }
        },
        CommandView::Go { params } => if s.search_started && !finished {
            &&& t == s
            &&& acts == seq![ActionView::Respond("Can't start new search until previous search completes"@)]
        } else {
            &&& t == UciSession { search_started: true, ..s }
            &&& acts == seq![ActionView::StartSearch { position, params }]
        },
        CommandView::Stop => if s.search_started {
            &&& t == UciSession { search_started: false, ..s }
            &&& acts == seq![ActionView::StopSearch]
        } else {
            &&& t == s
            &&& acts == seq![ActionView::Fail]
        },
        CommandView::Eval => {
            &&& t == s
            &&& if has_king(position) {
                &&& acts.len() == 1
                &&& acts[0] matches ActionView::ReportEval { eval } && eval.0 == spec_evaluate(g, position)
            } else {
                acts == seq![ActionView::Fail]
            }
        },
        CommandView::Perft { depth } => {
            &&& t == s
            &&& if has_king(position) && depth >= 1 {
                acts == seq![ActionView::RunPerft { position, depth: depth as u64 }]
            } else {
                acts == seq![ActionView::Fail]
            }
        },
        CommandView::PerftFull { depth } => {
            &&& t == s
            &&& if has_king(position) && g.all_pieces.moves_spec(position).len() > 0 {
                acts == seq![ActionView::RunPerftFull { position, depth: depth as u64 }]
            } else {
                acts == seq![ActionView::Fail]
            }
        },
        CommandView::PerftBenchmark => t == s && acts == seq![ActionView::RunPerftBenchmark],
        CommandView::IsReady => t == s && acts == seq![ActionView::Respond("readyok"@)],
        CommandView::Debug { on } => t == s && acts == seq![
            if on {
                ActionView::OpenDebugLog
            } else {
                ActionView::CloseDebugLog
            },
        ],
        _ => t == s && acts == seq![ActionView::Unexpected(c)],
    }
}

/// What a session does with a command: `quit` ends it in any state; before `uci` only
/// `uci` is taken, which identifies the engine and sets the start position; after it the
/// commands of a game are taken, and the others are reported as unexpected.
pub open spec fn handled(s: UciSession, c: CommandView, finished: bool, g: MoveGen, t: UciSession, acts: Seq<ActionView>) -> bool {
    if c is Quit {
        t == s && acts == seq![ActionView::Quit]
    } else {
        match s.phase {
            UciPhase::Initial => if c is Uci {
                &&& t.search_started == s.search_started
                &&& t.phase matches UciPhase::Enabled { position: q } && is_start_position(q)
                &&& acts == identification()
            } else {
                t == s && acts == seq![ActionView::Unexpected(c)]
            },
            UciPhase::Enabled { position } => enabled_step(position, s, c, finished, g, t, acts),
        }
    }
}

/// Makes the moves in turn, or says that one of them cannot be made.
fn make_moves(position: Position, moves: &Vec<Move>) -> (r: Option<Position>)
    ensures
        r == apply_moves(position, moves@),
{
    let mut p = position;
    let mut i: usize = 0;
    assert(moves@.skip(0) =~= moves@);
    while i < moves.len()
        invariant
            i <= moves.len(),
            apply_moves(position, moves@) == apply_moves(p, moves@.skip(i as int)),
        decreases moves.len() - i,
    {
        let m = moves[i];
        proof {
            assert(moves@.skip(i as int)[0] == m);
            assert(moves@.skip(i as int).drop_first() =~= moves@.skip(i + 1));
        }
        if !p.can_make_move(m) {
            return None;
        }
        p.make_move(m);
        i += 1;
    }
    proof {
        assert(moves@.skip(i as int) =~= seq![]);
    }
    Some(p)
}

impl UciSession {
    /// A session waiting for `uci`, with no search started.
    pub fn new() -> (r: UciSession)
        ensures
            r.phase == UciPhase::Initial,
            !r.search_started,
    {
        UciSession { phase: UciPhase::Initial, search_started: false }
    }

    /// The lines that answer `uci`.
    fn identify() -> (r: Vec<UciAction>)
        ensures
            action_views(r@) =~= seq![
                ActionView::Respond("id name Will's Engine"@),
                ActionView::Respond("id author Will Forman"@),
                ActionView::Respond("uciok"@),
            ],
    {
        let name = chars_string(&str_chars("id name Will's Engine"));
        let author = chars_string(&str_chars("id author Will Forman"));
        let ok = chars_string(&str_chars("uciok"));
        let r = vec![UciAction::Respond(name), UciAction::Respond(author), UciAction::Respond(ok)];
        assert(action_views(r@) =~= seq![
            ActionView::Respond("id name Will's Engine"@),
            ActionView::Respond("id author Will Forman"@),
            ActionView::Respond("uciok"@),
        ]);
        r
    }

    /// A single action.
    fn one(a: UciAction) -> (r: Vec<UciAction>)
        ensures
            action_views(r@) =~= seq![a@],
    {
        let r = vec![a];
        assert(action_views(r@) =~= seq![a@]);
        r
    }

    /// The message of a failure.
    fn fail(msg: &str) -> (r: Vec<UciAction>)
        ensures
            action_views(r@) =~= seq![ActionView::Fail],
    {
        Self::one(UciAction::Fail(chars_string(&str_chars(msg))))
    }

    /// The position a `position` command sets, or why it cannot be set.
    fn set_position(fen: &Option<String>, moves: &Option<Vec<Move>>) -> (r: Result<Position, &'static str>)
        ensures
            position_reached(
                match fen {
                    Some(f) => Some(f@),
                    None => None,
                },
                listed_moves(
                    match moves {
                        Some(m) => Some(m@),
                        None => None,
                    },
                ),
                match r {
                    Ok(q) => Some(q),
                    Err(_) => None,
                },
            ),
    {
        let start = match fen {
            Some(f) => {
                match Position::from_fen(f.as_str()) {
                    Ok(p) => p,
                    Err(_) => {
                        return Err("the FEN string is not valid");
                    },
                }
            },
            None => Position::start(),
        };
        let empty: Vec<Move> = Vec::new();
        let after = match moves {
            Some(m) => make_moves(start, m),
            None => make_moves(start, &empty),
        };
        proof {
            assert(empty@ =~= seq![]);
            match fen {
                Some(f) => {
                    assert(read_from_fen(start, f@));
                },
                None => {
                    assert(is_start_position(start));
                },
            }
        }
        match after {
            Some(q) => Ok(q),
            None => Err("a move cannot be made"),
        }
    }

    /// Takes a command. `search_finished` says whether the last search started has ended
    /// by itself.
    pub fn handle(&mut self, command: UCICommand, search_finished: bool, move_gen: &MoveGen) -> (r: Vec<UciAction>)
        requires
            move_gen.wf(),
        ensures
            handled(*old(self), command@, search_finished, *move_gen, *final(self), action_views(r@)),
    {
        if let UCICommand::Quit = &command {
            return Self::one(UciAction::Quit);
        }
        match self.phase {
            UciPhase::Initial => {
                if let UCICommand::Uci = &command {
                    self.phase = UciPhase::Enabled { position: Position::start() };
                    Self::identify()
                } else {
                    Self::one(UciAction::Unexpected(command))
                }
            },
            UciPhase::Enabled { position } => self.handle_enabled(position, command, search_finished, move_gen),
        }
    }

    /// Takes a command other than `quit` in a ready session.
    fn handle_enabled(&mut self, position: Position, command: UCICommand, search_finished: bool, move_gen: &MoveGen) -> (r: Vec<UciAction>)
        requires
            move_gen.wf(),
            old(self).phase == (UciPhase::Enabled { position }),
            !(command@ is Quit),
        ensures
            enabled_step(position, *old(self), command@, search_finished, *move_gen, *final(self), action_views(r@)),
    {
        let has_king = !position.pieces.get(Piece::King).get(position.state.to_move).is_empty();
        match command {
            UCICommand::UciNewGame => {
                self.phase = UciPhase::Enabled { position: Position::start() };
                Vec::new()
            },
            UCICommand::Position { fen, moves } => {
                match Self::set_position(&fen, &moves) {
                    Ok(q) => {
                        self.phase = UciPhase::Enabled { position: q };
                        Vec::new()
                    },
                    Err(msg) => Self::fail(msg),
                }
            },
            UCICommand::Go { params } => {
                if self.search_started && !search_finished {
                    Self::one(
                        UciAction::Respond(chars_string(&str_chars("Can't start new search until previous search completes"))),
                    )
                } else {
                    self.search_started = true;
                    Self::one(UciAction::StartSearch { position, params })
                }
            },
            UCICommand::Stop => {
                if self.search_started {
                    self.search_started = false;
                    Self::one(UciAction::StopSearch)
                } else {
                    Self::fail("no search to stop")
                }
            },
            UCICommand::Eval => {
                if has_king {
                    let eval = PositionEvaluator.evaluate(&position, move_gen);
                    Self::one(UciAction::ReportEval { eval })
                } else {
                    Self::fail("no king to move")
                }
            },
            UCICommand::Perft { depth } => {
                if has_king && depth >= 1 {
                    Self::one(UciAction::RunPerft { position, depth })
                } else {
                    Self::fail("perft needs a king to move and a depth of one or more")
                }
            },
            UCICommand::PerftFull { depth } => {
                if has_king && move_gen.all_pieces.gen_moves(&position).len() > 0 {
                    Self::one(UciAction::RunPerftFull { position, depth })
                } else {
                    Self::fail("perft needs a king to move and a move to make")
                }
            },
            UCICommand::PerftBenchmark => Self::one(UciAction::RunPerftBenchmark),
            UCICommand::IsReady => Self::one(UciAction::Respond(chars_string(&str_chars("readyok")))),
            UCICommand::Debug { on } => {
                if on {
                    Self::one(UciAction::OpenDebugLog)
                } else {
                    Self::one(UciAction::CloseDebugLog)
                }
            },
            _ => Self::one(UciAction::Unexpected(command)),
        }
    }
}

/// The line that reports the best move: its squares' names, then the promotion's letter.
pub open spec fn best_move_line(m: Move) -> Seq<char> {
    "bestmove "@ + square_name(m.src) + square_name(m.dest) + match m.promotion {
        Some(p) => seq![p.letter()],
        None => seq![],
    }
}

/// The name of a square in capitals, file letter then rank digit.
pub open spec fn upper_square_name(sq: Square) -> Seq<char> {
    seq![((sq.idx() % 8 + 'A' as int) as u32) as char, ((sq.idx() / 8 + '1' as int) as u32) as char]
}

/// A move as the engine prints it: the squares' names in capitals, then the promotion's
/// letter.
pub open spec fn move_display(m: Move) -> Seq<char> {
    upper_square_name(m.src) + upper_square_name(m.dest) + match m.promotion {
        Some(p) => seq![p.letter()],
        None => seq![],
    }
}

/// The lowercase letter of a piece.
fn piece_letter(p: Piece) -> (r: char)
    ensures
        r == p.letter(),
{
    match p {
        Piece::Pawn => 'p',
        Piece::Knight => 'n',
        Piece::Bishop => 'b',
        Piece::Rook => 'r',
        Piece::Queen => 'q',
        Piece::King => 'k',
    }
}

/// The line that reports the best move.
pub fn best_move_text(m: Move) -> (r: String)
    ensures
        r@ == best_move_line(m),
{
    let mut out = chars_string(&str_chars("bestmove "));
    push_square_name(&mut out, m.src);
    push_square_name(&mut out, m.dest);
    match m.promotion {
        Some(p) => push_char(&mut out, piece_letter(p)),
        None => {},
    }
    assert(out@ =~= best_move_line(m));
    out
}

/// Appends the capital name of a square.
fn push_upper_square_name(out: &mut String, sq: Square)
    ensures
        final(out)@ == old(out)@ + upper_square_name(sq),
{
    let (rank, file) = sq.to_rank_file();
    push_char(out, (file + 65) as char);
    push_char(out, (rank + 49) as char);
    assert(final(out)@ =~= old(out)@ + upper_square_name(sq));
}

impl Move {
    /// The move as the engine prints it, as in `E2E4` or `E7E8q`.
    pub fn to_display_string(&self) -> (r: String)
        ensures
            r@ == move_display(*self),
    {
        let mut out = String::new();
        push_upper_square_name(&mut out, self.src);
        push_upper_square_name(&mut out, self.dest);
        match self.promotion {
            Some(p) => push_char(&mut out, piece_letter(p)),
            None => {},
        }
        assert(out@ =~= move_display(*self));
        out
    }
}

} // verus!
