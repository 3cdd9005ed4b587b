//! The options an engine announces to a UCI client, and the line that announces one.
use vstd::prelude::*;

use crate::evaluation::{decimal, push_decimal};
use crate::text::push_char;

verus! {

/// The kind of value an option takes, as the UCI protocol names them.
#[derive(Debug)]
pub enum UCIOptionType {
    Check,
    Spin { range_start: i32, range_end: i32 },
    Combo { options: Vec<String> },
    Button,
    String,
}

/// An option the engine offers: its name, the kind of value it takes and its default.
#[derive(Debug)]
pub struct UCIOption {
    pub name: String,
    pub type_: UCIOptionType,
    pub default: Option<String>,
}

/// What `str::to_lowercase` gives for a text: each character replaced by its Unicode
/// lower case.
pub uninterp spec fn lowercase_of(s: Seq<char>) -> Seq<char>;

/// What the `Debug` formatting of a string gives: the text in double quotes, with
/// quotes, backslashes and unprintable characters escaped.
pub uninterp spec fn debug_quoted(s: Seq<char>) -> Seq<char>;

/// `str::to_lowercase` from std.
#[verifier::external_body]
fn lowercase(s: &String) -> (r: String)
    ensures
        r@ == lowercase_of(s@),
{
    s.to_lowercase()
}

/// The `Debug` formatting of a string, from std.
#[verifier::external_body]
fn debug_string(s: &String) -> (r: String)
    ensures
        r@ == debug_quoted(s@),
{
    format!("{:?}", s)
}

/// A signed integer in decimal, with a leading `-` when it is negative.
pub open spec fn int_text(v: int) -> Seq<char> {
    if v < 0 {
        seq!['-'] + decimal((-v) as nat)
    } else {
        decimal(v as nat)
    }
}

/// The parts one after the other, with `sep` between each two.
pub open spec fn joined(parts: Seq<Seq<char>>, sep: Seq<char>) -> Seq<char>
    decreases parts.len(),
{
    if parts.len() == 0 {
        seq![]
    } else if parts.len() == 1 {
        parts[0]
    } else {
        joined(parts.drop_last(), sep) + sep + parts.last()
    }
}

/// The `Debug` formatting of each string.
pub open spec fn quoted_parts(v: Seq<String>) -> Seq<Seq<char>> {
    Seq::new(v.len(), |k: int| debug_quoted(v[k]@))
}

/// Each string behind `prefix`.
pub open spec fn prefixed_parts(v: Seq<String>, prefix: Seq<char>) -> Seq<Seq<char>> {
    Seq::new(v.len(), |k: int| prefix + v[k]@)
}

/// The `Debug` formatting of an option's type, as `derive(Debug)` writes it.
pub open spec fn type_debug_text(t: UCIOptionType) -> Seq<char> {
    match t {
        UCIOptionType::Check => "Check"@,
        UCIOptionType::Spin { range_start, range_end } => "Spin { range_start: "@ + int_text(
            range_start as int,
        ) + ", range_end: "@ + int_text(range_end as int) + " }"@,
        UCIOptionType::Combo { options } => "Combo { options: ["@ + joined(quoted_parts(options@), ", "@) + "] }"@,
        UCIOptionType::Button => "Button"@,
        UCIOptionType::String => "String"@,
    }
}

/// What follows the type in an option's line: the range of a spin, the choices of a combo.
pub open spec fn type_tail_text(t: UCIOptionType) -> Seq<char> {
    match t {
        UCIOptionType::Spin { range_start, range_end } => "min "@ + int_text(range_start as int)
            + " max "@ + int_text(range_end as int),
        UCIOptionType::Combo { options } => joined(prefixed_parts(options@, "option "@), " "@),
        _ => seq![],
    }
}

/// The line that announces an option: `option`, its name, `type` and the type in lower
/// case, its default if it has one, then the type's range or choices.
pub open spec fn option_text(o: UCIOption) -> Seq<char> {
    "option "@ + o.name@ + " type "@ + lowercase_of(type_debug_text(o.type_)) + match o.default {
        Some(d) => " default "@ + d@,
        None => seq![],
    } + type_tail_text(o.type_)
}

/// Appends the characters of a string slice.
fn push_str(out: &mut String, s: &str)
    ensures
        final(out)@ == old(out)@ + s@,
{
    let n = s.unicode_len();
    let mut i: usize = 0;
    while i < n
        invariant
            n == s@.len(),
            i <= n,
            out@ == old(out)@ + s@.take(i as int),
        decreases n - i,
    {
        push_char(out, s.get_char(i));
        proof {
            assert(s@.take(i + 1) =~= s@.take(i as int).push(s@[i as int]));
        }
        i += 1;
    }
    proof {
        assert(s@.take(n as int) =~= s@);
    }
}

/// Appends a signed integer in decimal.
fn push_int(out: &mut String, v: i32)
    ensures
        final(out)@ == old(out)@ + int_text(v as int),
{
    if v < 0 {
        push_char(out, '-');
        push_decimal(out, (-(v as i64)) as u32);
        assert(final(out)@ =~= old(out)@ + int_text(v as int));
    } else {
        push_decimal(out, v as u32);
    }
}

proof fn lemma_joined_step(parts: Seq<Seq<char>>, sep: Seq<char>, i: int)
    requires
        0 <= i < parts.len(),
    ensures
        joined(parts.take(i + 1), sep) == if i == 0 {
            parts[0]
        } else {
            joined(parts.take(i), sep) + sep + parts[i]
        },
{
    assert(parts.take(i + 1).drop_last() =~= parts.take(i));
    if i == 0 {
        assert(parts.take(1)[0] == parts[0]);
    }
}

/// Appends each string, written as `prefix` and the string, or as its `Debug` formatting
/// when `quoted`, with `sep` between each two.
fn push_joined(out: &mut String, v: &Vec<String>, quoted: bool, prefix: &str, sep: &str)
    ensures
        final(out)@ == old(out)@ + joined(
            if quoted {
                quoted_parts(v@)
            } else {
                prefixed_parts(v@, prefix@)
            },
            sep@,
        ),
{
    let ghost parts = if quoted {
        quoted_parts(v@)
    } else {
        prefixed_parts(v@, prefix@)
    };
    let mut i: usize = 0;
    while i < v.len()
        invariant
            i <= v.len(),
            parts.len() == v@.len(),
            forall|k: int|
                0 <= k < v@.len() ==> #[trigger] parts[k] == (if quoted {
                    debug_quoted(v@[k]@)
                } else {
                    prefix@ + v@[k]@
                }),
            out@ == old(out)@ + joined(parts.take(i as int), sep@),
        decreases v.len() - i,
    {
        let ghost before = out@;
        if i > 0 {
            push_str(out, sep);
        }
        if quoted {
            let q = debug_string(&v[i]);
            push_str(out, q.as_str());
        } else {
            push_str(out, prefix);
            push_str(out, v[i].as_str());
        }
        proof {
            lemma_joined_step(parts, sep@, i as int);
            assert(parts[i as int] == (if quoted {
                debug_quoted(v@[i as int]@)
            } else {
                prefix@ + v@[i as int]@
            }));
            if i == 0 {
                assert(joined(parts.take(0), sep@) =~= seq![]);
            }
            assert(out@ =~= old(out)@ + joined(parts.take(i + 1), sep@));
        }
        i += 1;
    }
    proof {
        assert(parts.take(v.len() as int) =~= parts);
    }
}

impl UCIOption {
    /// An option with the name, type and default given.
    pub fn new(name: String, type_: UCIOptionType, default: Option<String>) -> (r: UCIOption)
        ensures
            r.name == name,
            r.type_ == type_,
            r.default == default,
    {
        UCIOption { name, type_, default }
    }

    /// The line that announces the option to a client, as in
    /// `option Hash type spin default 16min 1 max 64`.
    pub fn to_option_string(&self) -> (r: String)
        ensures
            r@ == option_text(*self),
    {
        let mut type_debug = String::new();
        match &self.type_ {
            UCIOptionType::Check => push_str(&mut type_debug, "Check"),
            UCIOptionType::Spin { range_start, range_end } => {
                push_str(&mut type_debug, "Spin { range_start: ");
                push_int(&mut type_debug, *range_start);
                push_str(&mut type_debug, ", range_end: ");
                push_int(&mut type_debug, *range_end);
                push_str(&mut type_debug, " }");
            },
            UCIOptionType::Combo { options } => {
                push_str(&mut type_debug, "Combo { options: [");
                push_joined(&mut type_debug, options, true, "", ", ");
                push_str(&mut type_debug, "] }");
            },
            UCIOptionType::Button => push_str(&mut type_debug, "Button"),
            UCIOptionType::String => push_str(&mut type_debug, "String"),
        }
        assert(type_debug@ =~= type_debug_text(self.type_));
        let lower = lowercase(&type_debug);
        let mut out = String::new();
        push_str(&mut out, "option ");
        push_str(&mut out, self.name.as_str());
        push_str(&mut out, " type ");
        push_str(&mut out, lower.as_str());
        match &self.default {
            Some(d) => {
                push_str(&mut out, " default ");
                push_str(&mut out, d.as_str());
            },
            None => {},
        }
        let ghost head = out@;
        match &self.type_ {
            UCIOptionType::Spin { range_start, range_end } => {
                push_str(&mut out, "min ");
                push_int(&mut out, *range_start);
                push_str(&mut out, " max ");
                push_int(&mut out, *range_end);
                assert(out@ =~= head + type_tail_text(self.type_));
            },
            UCIOptionType::Combo { options } => {
                push_joined(&mut out, options, false, "option ", " ");
                assert(out@ =~= head + type_tail_text(self.type_));
            },
            _ => {
                assert(out@ =~= head + type_tail_text(self.type_));
            },
        }
        assert(out@ =~= option_text(*self));
        out
    }
}

} // verus!
