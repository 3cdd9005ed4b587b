//! The UCI protocol's commands: reading them from text, and the protocol's decisions, a
//! step from a state and a command to the next state and what to do.
use vstd::prelude::*;

use crate::bitboard::Square;
use crate::position::fen::named_square;
use crate::position::{Move, Position};
use crate::search::SearchParams;
use crate::text::{all_digits, chars_string, digits_value, lemma_digits_value_mono, push_char, split_chars, split_on, str_chars};

verus! {

/// A command the engine reads.
#[derive(Clone, Debug, PartialEq, Eq)]
pub enum UCICommand {
    Uci,
    Debug { on: bool },
    IsReady,
    SetOption { name: String, value: Option<String> },
    Register { name: String, code: String },
    RegisterLater,
    UciNewGame,
    Position { fen: Option<String>, moves: Option<Vec<Move>> },
    Go { params: SearchParams },
    Stop,
    PonderHit,
    Quit,
    Eval,
    Perft { depth: u64 },
    PerftFull { depth: u64 },
    PerftBenchmark,
}

/// Why a line could not be read as a command: the message names the line.
#[derive(Clone, Debug, PartialEq, Eq)]
pub struct UCICommandParseError(pub String);

/// The fields of a `go` command, with the moves as a sequence.
#[verifier::ext_equal]
pub struct GoFields {
    pub search_moves: Option<Seq<Move>>,
    pub ponder: bool,
    pub white_time: Option<u64>,
    pub black_time: Option<u64>,
    pub white_inc: Option<u64>,
    pub black_inc: Option<u64>,
    pub moves_to_go: Option<u16>,
    pub max_depth: Option<u8>,
    pub max_nodes: Option<u64>,
    pub mate: Option<u8>,
    pub move_time: Option<u64>,
    pub infinite: bool,
}

/// A `go` command with no parameter read yet.
pub open spec fn no_go_fields() -> GoFields {
    GoFields {
        search_moves: None,
        ponder: false,
        white_time: None,
        black_time: None,
        white_inc: None,
        black_inc: None,
        moves_to_go: None,
        max_depth: None,
        max_nodes: None,
        mate: None,
        move_time: None,
        infinite: false,
    }
}

/// The move a four-character token names: source and destination square names.
pub open spec fn move_token(t: Seq<char>) -> Option<Move> {
    if t.len() == 4 && named_square(t.subrange(0, 2)) is Some && named_square(t.subrange(2, 4)) is Some {
        Some(Move { src: named_square(t.subrange(0, 2)).unwrap(), dest: named_square(t.subrange(2, 4)).unwrap(), promotion: None })
    } else {
        None
    }
}

/// The moves the tokens from `i` on name, each of them a move.
pub open spec fn move_tokens(toks: Seq<Seq<char>>, i: int) -> Option<Seq<Move>>
    decreases toks.len() - i,
{
    if i >= toks.len() {
        Some(seq![])
    } else {
        match (move_token(toks[i]), move_tokens(toks, i + 1)) {
            (Some(m), Some(rest)) => Some(seq![m] + rest),
            _ => None,
        }
    }
}

/// The number a token of one or more digits gives, when it is at most `max`.
pub open spec fn number_token(t: Seq<char>, max: nat) -> Option<nat> {
    if t.len() > 0 && all_digits(t) && digits_value(t) <= max {
        Some(digits_value(t))
    } else {
        None
    }
}

/// The keyword of a `go` parameter that takes a number, and the largest number it takes.
pub open spec fn numeric_keyword_max(t: Seq<char>) -> Option<nat> {
    if t =~= "wtime"@ || t =~= "btime"@ || t =~= "winc"@ || t =~= "binc"@ || t =~= "nodes"@ || t =~= "movetime"@ {
        Some(u64::MAX as nat)
    } else if t =~= "movestogo"@ {
        Some(u16::MAX as nat)
    } else if t =~= "depth"@ || t =~= "mate"@ {
        Some(u8::MAX as nat)
    } else {
        None
    }
}

/// The fields with a numeric parameter recorded, unless one of its kind came earlier.
pub open spec fn with_number(f: GoFields, key: Seq<char>, v: nat) -> GoFields {
    if key =~= "wtime"@ {
        GoFields { white_time: if f.white_time is Some { f.white_time } else { Some(v as u64) }, ..f }
    } else if key =~= "btime"@ {
        GoFields { black_time: if f.black_time is Some { f.black_time } else { Some(v as u64) }, ..f }
    } else if key =~= "winc"@ {
        GoFields { white_inc: if f.white_inc is Some { f.white_inc } else { Some(v as u64) }, ..f }
    } else if key =~= "binc"@ {
        GoFields { black_inc: if f.black_inc is Some { f.black_inc } else { Some(v as u64) }, ..f }
    } else if key =~= "movestogo"@ {
        GoFields { moves_to_go: if f.moves_to_go is Some { f.moves_to_go } else { Some(v as u16) }, ..f }
    } else if key =~= "depth"@ {
        GoFields { max_depth: if f.max_depth is Some { f.max_depth } else { Some(v as u8) }, ..f }
    } else if key =~= "nodes"@ {
        GoFields { max_nodes: if f.max_nodes is Some { f.max_nodes } else { Some(v as u64) }, ..f }
    } else if key =~= "mate"@ {
        GoFields { mate: if f.mate is Some { f.mate } else { Some(v as u8) }, ..f }
    } else {
        GoFields { move_time: if f.move_time is Some { f.move_time } else { Some(v as u64) }, ..f }
    }
}

/// The fields of a `go` command whose parameters are the tokens from `i` on, read after
/// the fields `f`: `searchmoves` takes every token after it as a move; `ponder` and
/// `infinite` stand alone; the other keywords take a number; a repeated parameter keeps
/// its first value. Nothing when a token is none of these.
pub open spec fn go_parse(toks: Seq<Seq<char>>, i: int, f: GoFields) -> Option<GoFields>
    decreases toks.len() - i,
{
    if i >= toks.len() {
        Some(f)
    } else {
        let t = toks[i];
        if t =~= "searchmoves"@ {
            if i + 1 < toks.len() {
                match move_tokens(toks, i + 1) {
                    Some(ms) => Some(GoFields { search_moves: if f.search_moves is Some { f.search_moves } else { Some(ms) }, ..f }),
                    None => None,
                }
            } else {
                None
            }
        } else if t =~= "ponder"@ {
            go_parse(toks, i + 1, GoFields { ponder: true, ..f })
        } else if t =~= "infinite"@ {
            go_parse(toks, i + 1, GoFields { infinite: true, ..f })
        } else if numeric_keyword_max(t) is Some && i + 1 < toks.len() && number_token(toks[i + 1], numeric_keyword_max(t).unwrap()) is Some {
            go_parse(toks, i + 2, with_number(f, t, number_token(toks[i + 1], numeric_keyword_max(t).unwrap()).unwrap()))
        } else {
            None
        }
    }
}

/// The fields of the search parameters.
pub open spec fn go_fields_of(p: SearchParams) -> GoFields {
    GoFields {
        search_moves: match p.search_moves {
            Some(v) => Some(v@),
            None => None,
        },
        ponder: p.ponder,
        white_time: p.white_time,
        black_time: p.black_time,
        white_inc: p.white_inc,
        black_inc: p.black_inc,
        moves_to_go: p.moves_to_go,
        max_depth: p.max_depth,
        max_nodes: p.max_nodes,
        mate: p.mate,
        move_time: p.move_time,
        infinite: p.infinite,
    }
}

/// The characters are those of the text.
fn chars_eq(t: &Vec<char>, lit: &str) -> (r: bool)
    ensures
        r == (t@ =~= lit@),
{
    let n = lit.unicode_len();
    if t.len() != n {
        return false;
    }
    let mut i: usize = 0;
    while i < n
        invariant
            n == lit@.len(),
            t.len() == n,
            i <= n,
            forall|k: int| 0 <= k < i ==> t@[k] == lit@[k],
        decreases n - i,
    {
        if t[i] != lit.get_char(i) {
            return false;
        }
        i += 1;
    }
    true
}

/// The characters from `start` on begin with those of the text.
fn has_prefix_at(s: &Vec<char>, start: usize, lit: &str) -> (r: bool)
    requires
        start <= s.len(),
    ensures
        r == (start + lit@.len() <= s.len() && s@.subrange(start as int, start + lit@.len()) =~= lit@),
{
    let n = lit.unicode_len();
    if start > s.len() || n > s.len() - start {
        return false;
    }
    let mut i: usize = 0;
    while i < n
        invariant
            n == lit@.len(),
            start + n <= s.len(),
            i <= n,
            forall|k: int| 0 <= k < i ==> s@[start + k] == lit@[k],
        decreases n - i,
    {
        if s[start + i] != lit.get_char(i) {
            return false;
        }
        i += 1;
    }
    true
}

/// The characters from `start` on.
fn tail_of(s: &Vec<char>, start: usize) -> (r: Vec<char>)
    requires
        start <= s.len(),
    ensures
        r@ =~= s@.subrange(start as int, s@.len() as int),
{
    let mut r: Vec<char> = Vec::new();
    let mut i: usize = start;
    while i < s.len()
        invariant
            start <= i <= s.len(),
            r@ =~= s@.subrange(start as int, i as int),
        decreases s.len() - i,
    {
        r.push(s[i]);
        i += 1;
    }
    r
}

/// The characters from `start` up to `end`.
fn slice_of(s: &Vec<char>, start: usize, end: usize) -> (r: Vec<char>)
    requires
        start <= end <= s.len(),
    ensures
        r@ =~= s@.subrange(start as int, end as int),
{
    let mut r: Vec<char> = Vec::new();
    let mut i: usize = start;
    while i < end
        invariant
            start <= i <= end,
            end <= s.len(),
            r@ =~= s@.subrange(start as int, i as int),
        decreases end - i,
    {
        r.push(s[i]);
        i += 1;
    }
    r
}

/// The number a token of digits gives, when it is at most `max`.
fn number_of(t: &Vec<char>, max: u64) -> (r: Option<u64>)
    ensures
        r == match number_token(t@, max as nat) {
            Some(v) => Some(v as u64),
            None => None::<u64>,
        },
{
    if t.len() == 0 {
        return None;
    }
    let mut acc: u64 = 0;
    let mut i: usize = 0;
    while i < t.len()
        invariant
            i <= t.len(),
            t.len() > 0,
            all_digits(t@.take(i as int)),
            acc == digits_value(t@.take(i as int)),
            acc <= max,
        decreases t.len() - i,
    {
        let c = t[i];
        proof {
            assert(t@.take(i + 1).drop_last() =~= t@.take(i as int));
            assert(t@.take(i + 1).last() == c);
        }
        if c < '0' || c > '9' {
            proof {
                assert(!all_digits(t@));
            }
            return None;
        }
        let d: u64 = (c as u32 - '0' as u32) as u64;
        proof {
            assert(digits_value(t@.take(i + 1)) == acc * 10 + d);
        }
        if d > max || acc > (max - d) / 10 {
            proof {
                if d <= max {
                    assert(acc * 10 + d > max) by (nonlinear_arith)
                        requires
                            d <= max,
                            acc > (max - d) / 10,
                    ;
                }
                if all_digits(t@) {
                    lemma_digits_value_mono(t@, i + 1);
                }
            }
            return None;
        }
        assert(acc * 10 + d <= max) by (nonlinear_arith)
            requires
                d <= max,
                acc <= (max - d) / 10,
        ;
        acc = acc * 10 + d;
        proof {
            assert(all_digits(t@.take(i + 1)));
        }
        i += 1;
    }
    proof {
        assert(t@.take(t.len() as int) =~= t@);
    }
    Some(acc)
}

/// The move a four-character token names.
fn move_of(t: &Vec<char>) -> (r: Option<Move>)
    ensures
        r == move_token(t@),
{
    if t.len() != 4 {
        return None;
    }
    let src = crate::position::fen::en_passant_target_from_fen(&slice_of(t, 0, 2));
    let dest = crate::position::fen::en_passant_target_from_fen(&slice_of(t, 2, 4));
    proof {
        assert(!(t@.subrange(0, 2) =~= seq!['-']));
        assert(!(t@.subrange(2, 4) =~= seq!['-']));
    }
    match (src, dest) {
        (Ok(Some(s)), Ok(Some(d))) => Some(Move { src: s, dest: d, promotion: None }),
        _ => None,
    }
}

/// A command as values: texts as character sequences and move lists as sequences.
#[verifier::ext_equal]
pub enum CommandView {
    Uci,
    Debug { on: bool },
    IsReady,
    SetOption { name: Seq<char>, value: Option<Seq<char>> },
    Register { name: Seq<char>, code: Seq<char> },
    RegisterLater,
    UciNewGame,
    Position { fen: Option<Seq<char>>, moves: Option<Seq<Move>> },
    Go { params: GoFields },
    Stop,
    PonderHit,
    Quit,
    Eval,
    Perft { depth: nat },
    PerftFull { depth: nat },
    PerftBenchmark,
}

impl View for UCICommand {
    type V = CommandView;

    open spec fn view(&self) -> CommandView {
        match self {
            UCICommand::Uci => CommandView::Uci,
            UCICommand::Debug { on } => CommandView::Debug { on: *on },
            UCICommand::IsReady => CommandView::IsReady,
            UCICommand::SetOption { name, value } => CommandView::SetOption {
                name: name@,
                value: match value {
                    Some(v) => Some(v@),
                    None => None,
                },
            },
            UCICommand::Register { name, code } => CommandView::Register { name: name@, code: code@ },
            UCICommand::RegisterLater => CommandView::RegisterLater,
            UCICommand::UciNewGame => CommandView::UciNewGame,
            UCICommand::Position { fen, moves } => CommandView::Position {
                fen: match fen {
                    Some(f) => Some(f@),
                    None => None,
                },
                moves: match moves {
                    Some(m) => Some(m@),
                    None => None,
                },
            },
            UCICommand::Go { params } => CommandView::Go { params: go_fields_of(*params) },
            UCICommand::Stop => CommandView::Stop,
            UCICommand::PonderHit => CommandView::PonderHit,
            UCICommand::Quit => CommandView::Quit,
            UCICommand::Eval => CommandView::Eval,
            UCICommand::Perft { depth } => CommandView::Perft { depth: *depth as nat },
            UCICommand::PerftFull { depth } => CommandView::PerftFull { depth: *depth as nat },
            UCICommand::PerftBenchmark => CommandView::PerftBenchmark,
        }
    }
}

/// The characters of each vector.
pub open spec fn views(v: Seq<Vec<char>>) -> Seq<Seq<char>> {
    v.map_values(|t: Vec<char>| t@)
}

/// The text begins with the prefix.
pub open spec fn starts_with(s: Seq<char>, p: Seq<char>) -> bool {
    p.len() <= s.len() && s.subrange(0, p.len() as int) =~= p
}

/// Where the pattern first occurs in the text at or after `k`.
pub open spec fn find_from(r: Seq<char>, pat: Seq<char>, k: nat) -> Option<nat>
    decreases r.len() - k,
{
    if k + pat.len() > r.len() {
        None
    } else if r.subrange(k as int, (k + pat.len()) as int) =~= pat {
        Some(k)
    } else {
        find_from(r, pat, k + 1)
    }
}

/// A `setoption` command whose text after `setoption name ` is `r`: the name runs up to the
/// first ` value` when a space follows it, and the value is what comes after that space;
/// otherwise the whole is the name.
pub open spec fn setoption_view(r: Seq<char>) -> CommandView {
    let k = find_from(r, " value"@, 0);
    let j = k.unwrap() as int;
    if k is Some && j + 7 <= r.len() && r[j + 6] == ' ' {
        CommandView::SetOption { name: r.take(j), value: Some(r.skip(j + 7)) }
    } else {
        CommandView::SetOption { name: r, value: None }
    }
}

/// A `register` command whose text after `register name ` is `r`: the name runs up to the
/// first ` code`, which a space must follow, and the code is what comes after it.
pub open spec fn register_view(r: Seq<char>) -> Option<CommandView> {
    let k = find_from(r, " code"@, 0);
    let j = k.unwrap() as int;
    if k is Some && j + 6 <= r.len() && r[j + 5] == ' ' {
        Some(CommandView::Register { name: r.take(j), code: r.skip(j + 6) })
    } else {
        None
    }
}

/// An ASCII letter or digit.
pub open spec fn is_alnum(c: char) -> bool {
    ('0' <= c <= '9') || ('a' <= c <= 'z') || ('A' <= c <= 'Z')
}

/// One or more ASCII letters and digits.
pub open spec fn alnum_word(t: Seq<char>) -> bool {
    t.len() > 0 && forall|k: int| 0 <= k < t.len() ==> is_alnum(#[trigger] t[k])
}

/// One or more decimal digits.
pub open spec fn digit_word(t: Seq<char>) -> bool {
    t.len() > 0 && all_digits(t)
}

/// A character of a castling field.
pub open spec fn is_castling_char(c: char) -> bool {
    c == 'K' || c == 'k' || c == 'Q' || c == 'q' || c == '-'
}

/// Six tokens in the shape of a FEN string: eight words of letters and digits split by
/// `/`, `w` or `b`, castling characters (maybe none), a word or `-`, and two numbers.
pub open spec fn fen_shape(t: Seq<Seq<char>>) -> bool {
    let ranks = split_on(t[0], '/');
    &&& t.len() == 6
    &&& ranks.len() == 8
    &&& forall|k: int| 0 <= k < 8 ==> alnum_word(#[trigger] ranks[k])
    &&& (t[1] =~= seq!['w'] || t[1] =~= seq!['b'])
    &&& forall|k: int| 0 <= k < t[2].len() ==> is_castling_char(#[trigger] t[2][k])
    &&& (t[3] =~= seq!['-'] || alnum_word(t[3]))
    &&& digit_word(t[4])
    &&& digit_word(t[5])
}

/// Six tokens joined by single spaces.
pub open spec fn fen_of_tokens(t: Seq<Seq<char>>) -> Seq<char> {
    t[0] + seq![' '] + t[1] + seq![' '] + t[2] + seq![' '] + t[3] + seq![' '] + t[4] + seq![' '] + t[5]
}

/// A `position` command whose tokens after `position ` are `toks`: `startpos`, or `fen`
/// and six tokens in the shape of a FEN string, then maybe `moves` and one or more moves.
pub open spec fn position_view(toks: Seq<Seq<char>>) -> Option<CommandView> {
    if toks.len() >= 1 && toks[0] =~= "startpos"@ {
        if toks.len() == 1 {
            Some(CommandView::Position { fen: None, moves: None })
        } else if toks.len() >= 3 && toks[1] =~= "moves"@ && move_tokens(toks, 2) is Some {
            Some(CommandView::Position { fen: None, moves: move_tokens(toks, 2) })
        } else {
            None
        }
    } else if toks.len() >= 7 && toks[0] =~= "fen"@ && fen_shape(toks.subrange(1, 7)) {
        let fen = fen_of_tokens(toks.subrange(1, 7));
        if toks.len() == 7 {
            Some(CommandView::Position { fen: Some(fen), moves: None })
        } else if toks.len() >= 9 && toks[7] =~= "moves"@ && move_tokens(toks, 8) is Some {
            Some(CommandView::Position { fen: Some(fen), moves: move_tokens(toks, 8) })
        } else {
            None
        }
    } else {
        None
    }
}

/// The command a line names, if any. A keyword alone must be the whole line; `go perft`
/// and `go perft_full` take a number; any other `go` line is a list of search parameters.
pub open spec fn command_of(s: Seq<char>) -> Option<CommandView> {
    if s =~= "ucinewgame"@ {
        Some(CommandView::UciNewGame)
    } else if s =~= "uci"@ {
        Some(CommandView::Uci)
    } else if s =~= "debug on"@ {
        Some(CommandView::Debug { on: true })
    } else if s =~= "debug off"@ {
        Some(CommandView::Debug { on: false })
    } else if s =~= "isready"@ {
        Some(CommandView::IsReady)
    } else if starts_with(s, "setoption name "@) {
        Some(setoption_view(s.skip(15)))
    } else if starts_with(s, "register name "@) {
        register_view(s.skip(14))
    } else if s =~= "register later"@ {
        Some(CommandView::RegisterLater)
    } else if starts_with(s, "position "@) {
        position_view(split_on(s.skip(9), ' '))
    } else if s =~= "stop"@ {
        Some(CommandView::Stop)
    } else if s =~= "ponderhit"@ {
        Some(CommandView::PonderHit)
    } else if s =~= "quit"@ {
        Some(CommandView::Quit)
    } else if s =~= "eval"@ {
        Some(CommandView::Eval)
    } else if starts_with(s, "go perft "@) && number_token(s.skip(9), u64::MAX as nat) is Some {
        Some(CommandView::Perft { depth: number_token(s.skip(9), u64::MAX as nat).unwrap() })
    } else if starts_with(s, "go perft_full "@) && number_token(s.skip(14), u64::MAX as nat) is Some {
        Some(CommandView::PerftFull { depth: number_token(s.skip(14), u64::MAX as nat).unwrap() })
    } else if s =~= "perft_bench"@ {
        Some(CommandView::PerftBenchmark)
    } else if starts_with(s, "go "@) {
        match go_parse(split_on(s.skip(3), ' '), 0, no_go_fields()) {
            Some(f) => Some(CommandView::Go { params: f }),
            None => None,
        }
    } else {
        None
    }
}

/// The message of a line that names no command.
pub open spec fn parse_error_text(s: Seq<char>) -> Seq<char> {
    "cannot parse: ["@ + s + seq![']']
}

/// The moves the tokens from `start` on name, if each names one.
fn moves_from(toks: &Vec<Vec<char>>, start: usize) -> (r: Option<Vec<Move>>)
    requires
        start <= toks.len(),
    ensures
        r is None == move_tokens(views(toks@), start as int) is None,
        r matches Some(v) ==> move_tokens(views(toks@), start as int) == Some(v@),
{
    let ghost tv = views(toks@);
    let mut v: Vec<Move> = Vec::new();
    let mut j: usize = toks.len();
    while j > start
        invariant
            start <= j <= toks.len(),
            tv == views(toks@),
            move_tokens(tv, j as int) == Some(v@),
        decreases j,
    {
        let m = move_of(&toks[j - 1]);
        assert(tv[j - 1] == toks@[j - 1]@);
        match m {
            Some(m) => {
                let ghost before = v@;
                v.insert(0, m);
                assert(v@ =~= seq![m] + before);
                j -= 1;
            },
            None => {
                proof {
                    lemma_move_tokens_none(tv, start as int, j - 1);
                }
                return None;
            },
        }
    }
    Some(v)
}

/// A token that names no move makes the whole list fail.
proof fn lemma_move_tokens_none(toks: Seq<Seq<char>>, start: int, k: int)
    requires
        0 <= start <= k < toks.len(),
        move_token(toks[k]) is None,
    ensures
        move_tokens(toks, start) is None,
    decreases k - start,
{
    if start < k {
        lemma_move_tokens_none(toks, start + 1, k);
    }
}

/// Where the text first holds the pattern at or after `from`.
fn find_in(r: &Vec<char>, pat: &str, from: usize) -> (k: Option<usize>)
    requires
        from <= r.len(),
    ensures
        k matches Some(j) ==> find_from(r@, pat@, from as nat) == Some(j as nat) && j + pat@.len() <= r.len(),
        k is None ==> find_from(r@, pat@, from as nat) is None,
{
    let n = pat.unicode_len();
    let mut k: usize = from;
    while k <= r.len() && n <= r.len() - k
        invariant
            from <= k,
            n == pat@.len(),
            find_from(r@, pat@, from as nat) == find_from(r@, pat@, k as nat),
        decreases r.len() + 1 - k,
    {
        if has_prefix_at(r, k, pat) {
            return Some(k);
        }
        k += 1;
    }
    None
}

/// The characters, then the others.
fn append_chars(out: &mut Vec<char>, t: &Vec<char>)
    ensures
        final(out)@ == old(out)@ + t@,
{
    let mut i: usize = 0;
    while i < t.len()
        invariant
            i <= t.len(),
            out@ == old(out)@ + t@.take(i as int),
        decreases t.len() - i,
    {
        out.push(t[i]);
        i += 1;
        proof {
            assert(t@.take(i as int) =~= t@.take(i - 1) + seq![t@[i - 1]]);
        }
    }
    proof {
        assert(t@.take(i as int) =~= t@);
    }
}

/// Reads the text after `setoption name `.
fn setoption_of(r: &Vec<char>) -> (c: UCICommand)
    ensures
        c@ == setoption_view(r@),
{
    proof {
        reveal_strlit(" value");
    }
    match find_in(r, " value", 0) {
        Some(k) => {
            if k + 6 < r.len() && r[k + 6] == ' ' {
                return UCICommand::SetOption {
                    name: chars_string(&slice_of(r, 0, k)),
                    value: Some(chars_string(&tail_of(r, k + 7))),
                };
            }
        },
        None => {},
    }
    UCICommand::SetOption { name: chars_string(r), value: None }
}

/// Reads the text after `register name `.
fn register_of(r: &Vec<char>) -> (c: Option<UCICommand>)
    ensures
        c is None == register_view(r@) is None,
        c matches Some(c) ==> register_view(r@) == Some(c@),
{
    proof {
        reveal_strlit(" code");
    }
    match find_in(r, " code", 0) {
        Some(k) => {
            if k + 5 < r.len() && r[k + 5] == ' ' {
                return Some(
                    UCICommand::Register { name: chars_string(&slice_of(r, 0, k)), code: chars_string(&tail_of(r, k + 6)) },
                );
            }
        },
        None => {},
    }
    None
}

/// One or more ASCII letters and digits.
fn is_alnum_word(t: &Vec<char>) -> (r: bool)
    ensures
        r == alnum_word(t@),
{
    if t.len() == 0 {
        return false;
    }
    let mut i: usize = 0;
    while i < t.len()
        invariant
            i <= t.len(),
            forall|k: int| 0 <= k < i ==> is_alnum(#[trigger] t@[k]),
        decreases t.len() - i,
    {
        let c = t[i];
        if !(('0' <= c && c <= '9') || ('a' <= c && c <= 'z') || ('A' <= c && c <= 'Z')) {
            return false;
        }
        i += 1;
    }
    true
}

/// One or more decimal digits.
fn is_digit_word(t: &Vec<char>) -> (r: bool)
    ensures
        r == digit_word(t@),
{
    if t.len() == 0 {
        return false;
    }
    let mut i: usize = 0;
    while i < t.len()
        invariant
            i <= t.len(),
            forall|k: int| 0 <= k < i ==> '0' <= #[trigger] t@[k] <= '9',
        decreases t.len() - i,
    {
        if t[i] < '0' || t[i] > '9' {
            return false;
        }
        i += 1;
    }
    true
}

/// Every character is one of a castling field.
fn castling_chars_ok(t: &Vec<char>) -> (r: bool)
    ensures
        r == (forall|k: int| 0 <= k < t@.len() ==> is_castling_char(#[trigger] t@[k])),
{
    let mut i: usize = 0;
    while i < t.len()
        invariant
            i <= t.len(),
            forall|k: int| 0 <= k < i ==> is_castling_char(#[trigger] t@[k]),
        decreases t.len() - i,
    {
        let c = t[i];
        if !(c == 'K' || c == 'k' || c == 'Q' || c == 'q' || c == '-') {
            return false;
        }
        i += 1;
    }
    true
}

/// The tokens from index 1 to 6 have the shape of a FEN string.
fn fen_tokens_ok(toks: &Vec<Vec<char>>) -> (r: bool)
    requires
        toks.len() >= 7,
    ensures
        r == fen_shape(views(toks@).subrange(1, 7)),
{
    let ghost t = views(toks@).subrange(1, 7);
    assert(t.len() == 6);
    assert(forall|k: int| 0 <= k < 6 ==> t[k] == toks@[k + 1]@);
    let ranks = split_chars(&toks[1], '/');
    if ranks.len() != 8 {
        return false;
    }
    let mut i: usize = 0;
    while i < 8
        invariant
            i <= 8,
            ranks.len() == 8,
            toks.len() >= 7,
            t == views(toks@).subrange(1, 7),
            t.len() == 6,
            t[0] == toks@[1]@,
            ranks.len() == split_on(t[0], '/').len(),
            forall|k: int| 0 <= k < ranks.len() ==> #[trigger] ranks@[k]@ == split_on(t[0], '/')[k],
            forall|k: int| 0 <= k < i ==> alnum_word(#[trigger] split_on(t[0], '/')[k]),
        decreases 8 - i,
    {
        if !is_alnum_word(&ranks[i]) {
            return false;
        }
        i += 1;
    }
    let side_ok = chars_eq(&toks[2], "w") || chars_eq(&toks[2], "b");
    proof {
        reveal_strlit("w");
        reveal_strlit("b");
    }
    let ep_ok = (toks[4].len() == 1 && toks[4][0] == '-') || is_alnum_word(&toks[4]);
    proof {
        assert((toks[4]@.len() == 1 && toks[4]@[0] == '-') == (t[3] =~= seq!['-']));
    }
    let castle_ok = castling_chars_ok(&toks[3]);
    let half_ok = is_digit_word(&toks[5]);
    let full_ok = is_digit_word(&toks[6]);
    proof {
        assert(t[1] == toks@[2]@ && t[2] == toks@[3]@ && t[3] == toks@[4]@ && t[4] == toks@[5]@ && t[5] == toks@[6]@);
        assert(forall|k: int| 0 <= k < 8 ==> alnum_word(#[trigger] split_on(t[0], '/')[k]));
    }
    side_ok && castle_ok && ep_ok && half_ok && full_ok
}

/// Tokens 1 to 6 joined by single spaces.
fn fen_text_of(toks: &Vec<Vec<char>>) -> (r: String)
    requires
        toks.len() >= 7,
    ensures
        r@ == fen_of_tokens(views(toks@).subrange(1, 7)),
{
    let ghost t = views(toks@).subrange(1, 7);
    assert(forall|k: int| 0 <= k < 6 ==> t[k] == toks@[k + 1]@);
    let mut out: Vec<char> = Vec::new();
    append_chars(&mut out, &toks[1]);
    let mut i: usize = 2;
    while i < 7
        invariant
            2 <= i <= 7,
            toks.len() >= 7,
            t == views(toks@).subrange(1, 7),
            forall|k: int| 0 <= k < 6 ==> t[k] == toks@[k + 1]@,
            i == 2 ==> out@ == t[0],
            i == 3 ==> out@ == t[0] + seq![' '] + t[1],
            i == 4 ==> out@ == t[0] + seq![' '] + t[1] + seq![' '] + t[2],
            i == 5 ==> out@ == t[0] + seq![' '] + t[1] + seq![' '] + t[2] + seq![' '] + t[3],
            i == 6 ==> out@ == t[0] + seq![' '] + t[1] + seq![' '] + t[2] + seq![' '] + t[3] + seq![' '] + t[4],
            i == 7 ==> out@ == fen_of_tokens(t),
        decreases 7 - i,
    {
        out.push(' ');
        append_chars(&mut out, &toks[i]);
        i += 1;
    }
    chars_string(&out)
}

/// Reads the tokens after `position `.
fn position_of(toks: &Vec<Vec<char>>) -> (c: Option<UCICommand>)
    ensures
        c is None == position_view(views(toks@)) is None,
        c matches Some(c) ==> position_view(views(toks@)) == Some(c@),
{
    let ghost tv = views(toks@);
    if toks.len() >= 1 && chars_eq(&toks[0], "startpos") {
        assert(tv[0] == toks@[0]@);
        if toks.len() == 1 {
            return Some(UCICommand::Position { fen: None, moves: None });
        }
        assert(tv[1] == toks@[1]@);
        if toks.len() >= 3 && chars_eq(&toks[1], "moves") {
            match moves_from(toks, 2) {
                Some(ms) => {
                    return Some(UCICommand::Position { fen: None, moves: Some(ms) });
                },
                None => {
                    return None;
                },
            }
        }
        return None;
    }
    assert(toks.len() >= 1 ==> tv[0] == toks@[0]@);
    if toks.len() >= 7 && chars_eq(&toks[0], "fen") && fen_tokens_ok(toks) {
        let fen = fen_text_of(toks);
        if toks.len() == 7 {
            return Some(UCICommand::Position { fen: Some(fen), moves: None });
        }
        assert(tv[7] == toks@[7]@);
        if toks.len() >= 9 && chars_eq(&toks[7], "moves") {
            match moves_from(toks, 8) {
                Some(ms) => {
                    return Some(UCICommand::Position { fen: Some(fen), moves: Some(ms) });
                },
                None => {
                    return None;
                },
            }
        }
        return None;
    }
    None
}

/// The largest number a numeric `go` keyword takes.
fn numeric_max_of(t: &Vec<char>) -> (r: Option<u64>)
    ensures
        r is Some == numeric_keyword_max(t@) is Some,
        r matches Some(m) ==> m as nat == numeric_keyword_max(t@).unwrap(),
{
    if chars_eq(t, "wtime") || chars_eq(t, "btime") || chars_eq(t, "winc") || chars_eq(t, "binc") || chars_eq(t, "nodes")
        || chars_eq(t, "movetime") {
        Some(u64::MAX)
    } else if chars_eq(t, "movestogo") {
        Some(65535)
    } else if chars_eq(t, "depth") || chars_eq(t, "mate") {
        Some(255)
    } else {
        None
    }
}

/// Records a numeric `go` parameter unless one of its kind came earlier.
fn record_number(p: &mut SearchParams, key: &Vec<char>, v: u64)
    requires
        numeric_keyword_max(key@) is Some,
        v <= numeric_keyword_max(key@).unwrap(),
    ensures
        go_fields_of(*final(p)) == with_number(go_fields_of(*old(p)), key@, v as nat),
{
    if chars_eq(key, "wtime") {
        if p.white_time.is_none() {
            p.white_time = Some(v);
        }
    } else if chars_eq(key, "btime") {
        if p.black_time.is_none() {
            p.black_time = Some(v);
        }
    } else if chars_eq(key, "winc") {
        if p.white_inc.is_none() {
            p.white_inc = Some(v);
        }
    } else if chars_eq(key, "binc") {
        if p.black_inc.is_none() {
            p.black_inc = Some(v);
        }
    } else if chars_eq(key, "movestogo") {
        if p.moves_to_go.is_none() {
            p.moves_to_go = Some(v as u16);
        }
    } else if chars_eq(key, "depth") {
        if p.max_depth.is_none() {
            p.max_depth = Some(v as u8);
        }
    } else if chars_eq(key, "nodes") {
        if p.max_nodes.is_none() {
            p.max_nodes = Some(v);
        }
    } else if chars_eq(key, "mate") {
        if p.mate.is_none() {
            p.mate = Some(v as u8);
        }
    } else {
        if p.move_time.is_none() {
            p.move_time = Some(v);
        }
    }
    assert(go_fields_of(*p) =~= with_number(go_fields_of(*old(p)), key@, v as nat));
}

/// Reads the parameters of a `go` command from its tokens.
fn go_of(toks: &Vec<Vec<char>>) -> (r: Option<SearchParams>)
    ensures
        r is None == go_parse(views(toks@), 0, no_go_fields()) is None,
        r matches Some(p) ==> go_parse(views(toks@), 0, no_go_fields()) == Some(go_fields_of(p)),
{
    let ghost tv = views(toks@);
    let mut p = SearchParams::new();
    assert(go_fields_of(p) =~= no_go_fields());
    let mut i: usize = 0;
    while i < toks.len()
        invariant
            i <= toks.len(),
            tv == views(toks@),
            go_parse(tv, i as int, go_fields_of(p)) == go_parse(tv, 0, no_go_fields()),
        decreases toks.len() - i,
    {
        let ghost f = go_fields_of(p);
        let t = &toks[i];
        assert(tv[i as int] == t@);
        if chars_eq(t, "searchmoves") {
            if i + 1 < toks.len() {
                match moves_from(toks, i + 1) {
                    Some(ms) => {
                        if p.search_moves.is_none() {
                            p.search_moves = Some(ms);
                        }
                        assert(go_fields_of(p) =~= GoFields {
                            search_moves: if f.search_moves is Some { f.search_moves } else { Some(ms@) },
                            ..f
                        });
                        return Some(p);
                    },
                    None => {
                        return None;
                    },
                }
            } else {
                return None;
            }
        } else if chars_eq(t, "ponder") {
            p.ponder = true;
            assert(go_fields_of(p) =~= GoFields { ponder: true, ..f });
            i += 1;
        } else if chars_eq(t, "infinite") {
            p.infinite = true;
            assert(go_fields_of(p) =~= GoFields { infinite: true, ..f });
            i += 1;
        } else {
            match numeric_max_of(t) {
                Some(max) => {
                    if i + 1 < toks.len() {
                        assert(tv[i + 1] == toks@[i + 1]@);
                        match number_of(&toks[i + 1], max) {
                            Some(v) => {
                                record_number(&mut p, t, v);
                                i += 2;
                            },
                            None => {
                                return None;
                            },
                        }
                    } else {
                        return None;
                    }
                },
                None => {
                    return None;
                },
            }
        }
    }
    Some(p)
}

impl UCICommand {
    /// Reads a command line. A keyword alone must be the whole line; `go perft` and
    /// `go perft_full` take a number; any other `go` line is a list of search parameters.
    /// A line that names no command is refused with a message that quotes it.
    pub fn from_str(input: &str) -> (r: Result<UCICommand, UCICommandParseError>)
        ensures
            r is Ok == command_of(input@) is Some,
            r matches Ok(c) ==> command_of(input@) == Some(c@),
            r matches Err(e) ==> e.0@ == parse_error_text(input@),
    {
        let s = str_chars(input);
        match Self::command_from_chars(&s) {
            Some(c) => Ok(c),
            None => {
                let mut out = str_chars("cannot parse: [");
                append_chars(&mut out, &s);
                out.push(']');
                Err(UCICommandParseError(chars_string(&out)))
            },
        }
    }

    /// The command the characters name, if any.
    fn command_from_chars(s: &Vec<char>) -> (r: Option<UCICommand>)
        ensures
            r is Some == command_of(s@) is Some,
            r matches Some(c) ==> command_of(s@) == Some(c@),
    {
        proof {
            reveal_strlit("setoption name ");
            reveal_strlit("register name ");
            reveal_strlit("position ");
            reveal_strlit("go perft ");
            reveal_strlit("go perft_full ");
            reveal_strlit("go ");
        }
        if chars_eq(s, "ucinewgame") {
            Some(UCICommand::UciNewGame)
        } else if chars_eq(s, "uci") {
            Some(UCICommand::Uci)
        } else if chars_eq(s, "debug on") {
            Some(UCICommand::Debug { on: true })
        } else if chars_eq(s, "debug off") {
            Some(UCICommand::Debug { on: false })
        } else if chars_eq(s, "isready") {
            Some(UCICommand::IsReady)
        } else if has_prefix_at(s, 0, "setoption name ") {
            Some(setoption_of(&tail_of(s, 15)))
        } else if has_prefix_at(s, 0, "register name ") {
            register_of(&tail_of(s, 14))
        } else if chars_eq(s, "register later") {
            Some(UCICommand::RegisterLater)
        } else if has_prefix_at(s, 0, "position ") {
            let rest = tail_of(s, 9);
            let toks = split_chars(&rest, ' ');
            assert(views(toks@) =~= split_on(s@.skip(9), ' '));
            position_of(&toks)
        } else if chars_eq(s, "stop") {
            Some(UCICommand::Stop)
        } else if chars_eq(s, "ponderhit") {
            Some(UCICommand::PonderHit)
        } else if chars_eq(s, "quit") {
            Some(UCICommand::Quit)
        } else if chars_eq(s, "eval") {
            Some(UCICommand::Eval)
        } else {
            if has_prefix_at(s, 0, "go perft ") {
                match number_of(&tail_of(s, 9), u64::MAX) {
                    Some(depth) => {
                        return Some(UCICommand::Perft { depth });
                    },
                    None => {},
                }
            }
            if has_prefix_at(s, 0, "go perft_full ") {
                match number_of(&tail_of(s, 14), u64::MAX) {
                    Some(depth) => {
                        return Some(UCICommand::PerftFull { depth });
                    },
                    None => {},
                }
            }
            if chars_eq(s, "perft_bench") {
                return Some(UCICommand::PerftBenchmark);
            }
            if has_prefix_at(s, 0, "go ") {
                let toks = split_chars(&tail_of(s, 3), ' ');
                assert(views(toks@) =~= split_on(s@.skip(3), ' '));
                match go_of(&toks) {
                    Some(params) => Some(UCICommand::Go { params }),
                    None => None,
                }
            } else {
                None
            }
        }
    }
}

} // verus!
