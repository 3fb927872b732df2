//! The grammar of a console line: a slash word, then the argument.

use vstd::prelude::*;

use crate::app::commands::{label_of, Command, CommandModel};
use crate::text::{
    chars_to_string, is_whitespace, is_ws, lemma_trim_end_shape, lemma_trim_idempotent,
    lemma_trim_end_concat, lemma_trim_noop, lemma_trim_of_trim_end, lemma_trim_start_end_commute,
    lemma_trim_start_shape, range_eq_str, str_to_chars, trim, trim_bounds,
    trim_end, trim_start,
};

verus! {

/// Why a line is not a command.
#[derive(Debug, Clone, PartialEq, Eq)]
pub enum ParseError {
    Empty,
    UnknownCommand(String),
    MissingArgument(&'static str),
}

/// A parse error as a mathematical value.
pub enum ParseErrorModel {
    Empty,
    UnknownCommand(Seq<char>),
    MissingArgument(Seq<char>),
}

impl View for ParseError {
    type V = ParseErrorModel;

    open spec fn view(&self) -> ParseErrorModel {
        match self {
            ParseError::Empty => ParseErrorModel::Empty,
            ParseError::UnknownCommand(s) => ParseErrorModel::UnknownCommand(s@),
            ParseError::MissingArgument(s) => ParseErrorModel::MissingArgument(s@),
        }
    }
}

/// The outcome of parsing, as a mathematical value.
pub open spec fn outcome(r: Result<Command, ParseError>) -> Result<CommandModel, ParseErrorModel> {
    match r {
        Ok(c) => Ok(c@),
        Err(e) => Err(e@),
    }
}

/// The index of the first whitespace character of `s`, or its length.
pub open spec fn first_ws(s: Seq<char>) -> nat
    decreases s.len(),
{
    if s.len() == 0 {
        0
    } else if is_ws(s[0]) {
        0
    } else {
        1 + first_ws(s.drop_first())
    }
}

/// The slash word of a trimmed line: everything before the first whitespace.
pub open spec fn command_word(t: Seq<char>) -> Seq<char> {
    t.take(first_ws(t) as int)
}

/// The argument of a trimmed line: what follows the first whitespace, trimmed.
pub open spec fn command_rest(t: Seq<char>) -> Seq<char> {
    if first_ws(t) < t.len() {
        trim(t.skip(first_ws(t) + 1int))
    } else {
        Seq::empty()
    }
}

/// A command that takes an argument: missing when the argument is empty.
pub open spec fn with_argument(
    rest: Seq<char>,
    name: Seq<char>,
    c: CommandModel,
) -> Result<CommandModel, ParseErrorModel> {
    if rest.len() == 0 {
        Err(ParseErrorModel::MissingArgument(name))
    } else {
        Ok(c)
    }
}

/// What a line means: the command that its slash word names, or the error.
pub open spec fn parse_line(s: Seq<char>) -> Result<CommandModel, ParseErrorModel> {
    let t = trim(s);
    if t.len() == 0 {
        Err(ParseErrorModel::Empty)
    } else if t[0] != '/' {
        Err(ParseErrorModel::UnknownCommand(t))
    } else {
        let word = command_word(t);
        let rest = command_rest(t);
        if word == "/ask"@ {
            with_argument(rest, "/ask"@, CommandModel::Ask(rest))
        } else if word == "/r"@ {
            with_argument(rest, "/r"@, CommandModel::R(rest))
        } else if word == "/r-glimpse"@ {
            with_argument(rest, "/r-glimpse"@, CommandModel::RGlimpse(rest))
        } else if word == "/codex"@ {
            with_argument(rest, "/codex"@, CommandModel::Codex(rest))
        } else if word == "/help"@ {
            Ok(CommandModel::Help)
        } else if word == "/quit"@ || word == "/exit"@ {
            Ok(CommandModel::Quit)
        } else if word == "/pwd"@ {
            Ok(CommandModel::Pwd)
        } else if word == "/context"@ {
            Ok(CommandModel::Context)
        } else if word == "/objects"@ {
            Ok(CommandModel::Objects)
        } else if word == "/reset-r"@ {
            Ok(CommandModel::ResetR)
        } else if word == "/history"@ {
            Ok(CommandModel::History)
        } else if word == "/clear"@ {
            Ok(CommandModel::Clear)
        } else {
            Err(ParseErrorModel::UnknownCommand(word))
        }
    }
}

proof fn lemma_first_ws(s: Seq<char>, k: int)
    requires
        0 <= k <= s.len(),
        forall|j: int| 0 <= j < k ==> !is_ws(#[trigger] s[j]),
        k == s.len() || is_ws(s[k]),
    ensures
        first_ws(s) == k,
    decreases k,
{
    if k > 0 {
        assert forall|j: int| 0 <= j < k - 1 implies !is_ws(#[trigger] s.drop_first()[j]) by {
            assert(s.drop_first()[j] == s[j + 1]);
        }
        lemma_first_ws(s.drop_first(), k - 1);
    }
}

/// Parses one console line into a command.
pub fn parse_input(input: &str) -> (r: Result<Command, ParseError>)
    ensures
        outcome(r) == parse_line(input@),
{
    let v = str_to_chars(input);
    let (start, end) = trim_bounds(v.as_slice(), 0, v.len());
    let ghost t = v@.subrange(start as int, end as int);
    assert(v@.subrange(0, v@.len() as int) =~= v@);
    if start == end {
        return Err(ParseError::Empty);
    }
    if v[start] != '/' {
        return Err(ParseError::UnknownCommand(chars_to_string(v.as_slice(), start, end)));
    }
    let mut i = start;
    while i < end && !is_whitespace(v[i])
        invariant
            start <= i <= end <= v@.len(),
            t == v@.subrange(start as int, end as int),
            forall|j: int| 0 <= j < i - start ==> !is_ws(#[trigger] t[j]),
        decreases end - i,
    {
        i = i + 1;
    }
    proof {
        lemma_first_ws(t, i - start);
        assert(command_word(t) =~= v@.subrange(start as int, i as int));
    }
    let (rest_start, rest_end) = if i < end {
        let b = trim_bounds(v.as_slice(), i + 1, end);
        assert(t.skip(i - start + 1) =~= v@.subrange(i + 1, end as int));
        b
    } else {
        (end, end)
    };
    let rest = chars_to_string(v.as_slice(), rest_start, rest_end);
    assert(rest@ == command_rest(t));
    let w = v.as_slice();
    if range_eq_str(w, start, i, "/ask") {
        require_arg(rest.as_str(), build_ask, "/ask")
    } else if range_eq_str(w, start, i, "/r") {
        require_arg(rest.as_str(), build_r, "/r")
    } else if range_eq_str(w, start, i, "/r-glimpse") {
        require_arg(rest.as_str(), build_r_glimpse, "/r-glimpse")
    } else if range_eq_str(w, start, i, "/codex") {
        require_arg(rest.as_str(), build_codex, "/codex")
    } else if range_eq_str(w, start, i, "/help") {
        Ok(Command::Help)
    } else if range_eq_str(w, start, i, "/quit") || range_eq_str(w, start, i, "/exit") {
        Ok(Command::Quit)
    } else if range_eq_str(w, start, i, "/pwd") {
        Ok(Command::Pwd)
    } else if range_eq_str(w, start, i, "/context") {
        Ok(Command::Context)
    } else if range_eq_str(w, start, i, "/objects") {
        Ok(Command::Objects)
    } else if range_eq_str(w, start, i, "/reset-r") {
        Ok(Command::ResetR)
    } else if range_eq_str(w, start, i, "/history") {
        Ok(Command::History)
    } else if range_eq_str(w, start, i, "/clear") {
        Ok(Command::Clear)
    } else {
        Err(ParseError::UnknownCommand(chars_to_string(w, start, i)))
    }
}

fn build_ask(s: String) -> (c: Command)
    ensures
        c == Command::Ask(s),
{
    Command::Ask(s)
}

fn build_r(s: String) -> (c: Command)
    ensures
        c == Command::R(s),
{
    Command::R(s)
}

fn build_r_glimpse(s: String) -> (c: Command)
    ensures
        c == Command::RGlimpse(s),
{
    Command::RGlimpse(s)
}

fn build_codex(s: String) -> (c: Command)
    ensures
        c == Command::Codex(s),
{
    Command::Codex(s)
}

/// Builds a command from its argument, or reports the argument missing.
fn require_arg<F>(rest: &str, build: F, command: &'static str) -> (r: Result<Command, ParseError>) where
    F: FnOnce(String) -> Command,

    requires
        forall|s: String| build.requires((s,)),
    ensures
        rest@.len() == 0 ==> r == Err::<Command, ParseError>(ParseError::MissingArgument(command)),
        rest@.len() > 0 ==> (r matches Ok(c) && exists|s: String| s@ == rest@ && build.ensures((s,), c)),
{
    if rest.is_empty() {
        Err(ParseError::MissingArgument(command))
    } else {
        Ok(build(rest.to_owned()))
    }
}


/// The argument of a command that takes one.
pub open spec fn argument_of(c: CommandModel) -> Option<Seq<char>> {
    match c {
        CommandModel::Ask(a) => Some(a),
        CommandModel::R(a) => Some(a),
        CommandModel::RGlimpse(a) => Some(a),
        CommandModel::Codex(a) => Some(a),
        _ => None,
    }
}

/// The line that names a command: its label, then, for a command that takes
/// an argument, one space and the argument.
pub open spec fn command_line(c: CommandModel) -> Seq<char> {
    match argument_of(c) {
        Some(a) => label_of(c) + seq![' '] + a,
        None => label_of(c),
    }
}

/// Surrounding whitespace never changes what a line means.
pub proof fn lemma_parse_ignores_surrounding_whitespace(s: Seq<char>)
    ensures
        parse_line(trim(s)) == parse_line(s),
{
    lemma_trim_idempotent(s);
}

proof fn lemma_trimmed_ends(a: Seq<char>)
    requires
        a.len() > 0,
        trim(a) == a,
    ensures
        !is_ws(a[0]),
        !is_ws(a.last()),
{
    let u = trim_start(a);
    lemma_trim_start_shape(a);
    lemma_trim_end_shape(u);
    assert(a[0] == u[0]);
}

/// A command's label, with its argument where it takes one, parses back to
/// the same command, for every argument that is non-empty and trimmed.
pub proof fn lemma_command_line_parses_back(c: CommandModel)
    requires
        argument_of(c) matches Some(a) ==> a.len() > 0 && trim(a) == a,
    ensures
        parse_line(command_line(c)) == Ok::<CommandModel, ParseErrorModel>(c),
{
    reveal_strlit("/ask");
    reveal_strlit("/r");
    reveal_strlit("/r-glimpse");
    reveal_strlit("/codex");
    reveal_strlit("/help");
    reveal_strlit("/quit");
    reveal_strlit("/exit");
    reveal_strlit("/pwd");
    reveal_strlit("/context");
    reveal_strlit("/objects");
    reveal_strlit("/reset-r");
    reveal_strlit("/history");
    reveal_strlit("/clear");
    let l = label_of(c);
    let x = command_line(c);
    assert(l.len() > 0 && l[0] == '/');
    assert(forall|j: int| 0 <= j < l.len() ==> !is_ws(#[trigger] l[j]));
    assert forall|j: int| 0 <= j < l.len() implies !is_ws(#[trigger] x[j]) by {
        assert(x[j] == l[j]);
    }
    match argument_of(c) {
        Some(a) => {
            lemma_trimmed_ends(a);
            assert(x.last() == a.last());
            lemma_trim_noop(x);
            assert(x[l.len() as int] == ' ');
            lemma_first_ws(x, l.len() as int);
            assert(command_word(x) =~= l);
            assert(x.skip(l.len() + 1int) =~= a);
        },
        None => {
            lemma_trim_noop(x);
            lemma_first_ws(x, l.len() as int);
            assert(command_word(x) =~= l);
        },
    }
}


/// A command's label, a space and any text parse to that command with the
/// text, trimmed, as its argument, whenever something is left after
/// trimming.
pub proof fn lemma_label_and_text_parse(c: CommandModel, s: Seq<char>)
    requires
        argument_of(c) == Some(trim(s)),
        trim(s).len() > 0,
    ensures
        parse_line(label_of(c) + seq![' '] + s) == Ok::<CommandModel, ParseErrorModel>(c),
{
    reveal_strlit("/ask");
    reveal_strlit("/r");
    reveal_strlit("/r-glimpse");
    reveal_strlit("/codex");
    let l = label_of(c);
    let x = l + seq![' '] + s;
    lemma_trim_start_end_commute(s);
    lemma_trim_start_shape(trim_end(s));
    assert(trim_end(s).len() > 0);
    lemma_trim_end_concat(l + seq![' '], s);
    let t = l + seq![' '] + trim_end(s);
    assert(trim_end(x) == t);
    assert(x[0] == '/');
    assert(trim_start(x) == x);
    assert(trim(x) == t);
    assert forall|j: int| 0 <= j < l.len() implies !is_ws(#[trigger] t[j]) by {
        assert(t[j] == l[j]);
    }
    assert(t[l.len() as int] == ' ');
    lemma_first_ws(t, l.len() as int);
    assert(command_word(t) =~= l);
    assert(t.skip(l.len() + 1int) =~= trim_end(s));
    lemma_trim_of_trim_end(s);
}

}
