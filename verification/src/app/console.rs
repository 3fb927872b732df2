//! What the console shows and sends: the text around each command, the
//! objects listed by R, and the code that takes a glimpse of an R value.

use vstd::prelude::*;

use crate::app::commands::{label_of, Command, CommandModel};
use crate::app::router::{argument_of, ParseError, ParseErrorModel};
use crate::app::state::status_of;
use crate::chat::backend::{placeholder_answer, ChatBackend, PlaceholderBackend};
use crate::codex::runner::CodexRunSummary;
use crate::path::opt_view;
use crate::r::session::{ExecutionResult, ExecutionResultModel};
use crate::text::{
    lemma_replaced_concat, lemma_split_append_plain, lemma_split_push,
    ends_with, lemma_ends_of_concat, lemma_occurs_at_end, lemma_occurs_in_prefix,
    occurs, odd_pieces, push_around, push_char, push_signed_decimal, replace_char, replaced, signed_decimal,
    split_on, str_to_chars, views,
};
use crate::transcript::{entries_view, TranscriptEntry, TranscriptKind};

verus! {

/// The names that R's `ls()` printed: the texts between double quotes, as
/// the odd pieces of the output split at `"`.
pub fn parse_r_objects(output: &str) -> (r: Vec<String>)
    ensures
        views(r@) == odd_pieces(split_on(output@, '"')),
{
    let v = str_to_chars(output);
    let mut result: Vec<String> = Vec::new();
    let mut current = String::new();
    let mut odd = false;
    let mut i: usize = 0;
    proof {
        assert(v@.take(0) =~= Seq::<char>::empty());
    }
    while i < v.len()
        invariant
            i <= v@.len(),
            v@ == output@,
            split_on(v@.take(i as int), '"').len() >= 1,
            current@ == split_on(v@.take(i as int), '"').last(),
            odd == (split_on(v@.take(i as int), '"').len() % 2 == 0),
            views(result@) == odd_pieces(split_on(v@.take(i as int), '"').drop_last()),
        decreases v@.len() - i,
    {
        let ghost p = split_on(v@.take(i as int), '"');
        let ghost before = views(result@);
        assert(v@.take(i + 1).drop_last() =~= v@.take(i as int));
        assert(v@.take(i + 1).last() == v@[i as int]);
        let c = v[i];
        if c == '"' {
            if odd {
                let piece = current;
                result.push(piece);
                assert(views(result@) =~= before.push(p.last()));
                assert(odd_pieces(p) =~= odd_pieces(p.drop_last()).push(p.last()));
            } else {
                assert(odd_pieces(p) =~= odd_pieces(p.drop_last()));
            }
            current = String::new();
            odd = !odd;
            assert(split_on(v@.take(i + 1), '"') == p.push(Seq::empty()));
            assert(p.push(Seq::empty()).drop_last() =~= p);
        } else {
            push_char(&mut current, c);
            assert(split_on(v@.take(i + 1), '"').drop_last() =~= p.drop_last());
        }
        i = i + 1;
    }
    let ghost p = split_on(v@.take(i as int), '"');
    let ghost before = views(result@);
    if odd {
        result.push(current);
        assert(views(result@) =~= before.push(p.last()));
        assert(odd_pieces(p) =~= odd_pieces(p.drop_last()).push(p.last()));
    } else {
        assert(odd_pieces(p) =~= odd_pieces(p.drop_last()));
    }
    assert(v@.take(v@.len() as int) =~= v@);
    result
}


/// Text written inside a single-quoted R string: backslashes doubled,
/// quotes escaped.
pub open spec fn r_text(value: Seq<char>) -> Seq<char> {
    replaced(replaced(value, '\\', seq!['\\', '\\']), '\'', seq!['\\', '\''])
}

/// Escapes text for a single-quoted R string.
pub fn escape_r_text(value: &str) -> (r: String)
    ensures
        r@ == r_text(value@),
{
    proof {
        reveal_strlit("\\\\");
        reveal_strlit("\\'");
        assert("\\\\"@ =~= seq!['\\', '\\']);
        assert("\\'"@ =~= seq!['\\', '\'']);
    }
    let step = replace_char(value, '\\', "\\\\");
    replace_char(step.as_str(), '\'', "\\'")
}

/// The R code that prints the class, names, structure and summary of the
/// value of an expression, which it reads from the escaped text `e`.
pub open spec fn glimpse_code(e: Seq<char>) -> Seq<char> {
    ("rconsole_glimpse_value <- eval(parse(text = '"@ + e + "'), envir = .GlobalEnv)\n"@)
        + ("cat('=== expression ===\\n')\ncat('"@ + e + "\\n')\n"@)
        + ("cat('=== class ===\\n')\nprint(class(rconsole_glimpse_value))\n"@)
        + ("cat('=== names ===\\n')\nprint(utils::head(names(rconsole_glimpse_value), 50))\n"@)
        + ("cat('=== str ===\\n')\nstr(rconsole_glimpse_value)\n"@)
        + ("cat('=== summary ===\\n')\ncat(paste(utils::capture.output(summary(rconsole_glimpse_value)), collapse='\\n'))\ncat('\\n')\n"@)
        + ("rm(rconsole_glimpse_value, envir = .GlobalEnv)\n"@)
}

/// The R code for `/r-glimpse expression`.
pub fn build_r_glimpse_code(expression: &str) -> (r: String)
    ensures
        r@ == glimpse_code(r_text(expression@)),
        ("rconsole_glimpse_value <- eval(parse(text = '"@ + r_text(expression@) + "'), envir = .GlobalEnv)\n"@).is_prefix_of(r@),
        occurs("cat('=== expression ===\\n')\ncat('"@ + r_text(expression@) + "\\n')\n"@, r@),
        occurs("cat('=== class ===\\n')\nprint(class(rconsole_glimpse_value))\n"@, r@),
        occurs("cat('=== names ===\\n')\nprint(utils::head(names(rconsole_glimpse_value), 50))\n"@, r@),
        occurs("cat('=== str ===\\n')\nstr(rconsole_glimpse_value)\n"@, r@),
        occurs(
            "cat('=== summary ===\\n')\ncat(paste(utils::capture.output(summary(rconsole_glimpse_value)), collapse='\\n'))\ncat('\\n')\n"@,
            r@,
        ),
        ends_with(r@, "rm(rconsole_glimpse_value, envir = .GlobalEnv)\n"@),
{
    let escaped = escape_r_text(expression);
    let e = escaped.as_str();
    let mut r = "rconsole_glimpse_value <- eval(parse(text = '".to_owned();
    r.append(e);
    r.append("'), envir = .GlobalEnv)\n");
    push_around(&mut r, "cat('=== expression ===\\n')\ncat('", e, "\\n')\n");
    r.append("cat('=== class ===\\n')\nprint(class(rconsole_glimpse_value))\n");
    r.append("cat('=== names ===\\n')\nprint(utils::head(names(rconsole_glimpse_value), 50))\n");
    r.append("cat('=== str ===\\n')\nstr(rconsole_glimpse_value)\n");
    r.append(
        "cat('=== summary ===\\n')\ncat(paste(utils::capture.output(summary(rconsole_glimpse_value)), collapse='\\n'))\ncat('\\n')\n",
    );
    r.append("rm(rconsole_glimpse_value, envir = .GlobalEnv)\n");
    proof {
        lemma_glimpse_code_sections(expression@);
    }
    r
}

/// The glimpse code evaluates the expression once into a temporary value in
/// the global environment, then prints, each under its header, the
/// expression, the value's class, its first names, its structure and its
/// summary, and ends by removing the temporary value.
pub proof fn lemma_glimpse_code_sections(expression: Seq<char>)
    ensures
        ("rconsole_glimpse_value <- eval(parse(text = '"@ + r_text(expression) + "'), envir = .GlobalEnv)\n"@).is_prefix_of(glimpse_code(r_text(expression))),
        occurs("cat('=== expression ===\\n')\ncat('"@ + r_text(expression) + "\\n')\n"@, glimpse_code(r_text(expression))),
        occurs("cat('=== class ===\\n')\nprint(class(rconsole_glimpse_value))\n"@, glimpse_code(r_text(expression))),
        occurs("cat('=== names ===\\n')\nprint(utils::head(names(rconsole_glimpse_value), 50))\n"@, glimpse_code(r_text(expression))),
        occurs("cat('=== str ===\\n')\nstr(rconsole_glimpse_value)\n"@, glimpse_code(r_text(expression))),
        occurs(
            "cat('=== summary ===\\n')\ncat(paste(utils::capture.output(summary(rconsole_glimpse_value)), collapse='\\n'))\ncat('\\n')\n"@,
            glimpse_code(r_text(expression)),
        ),
        ends_with(glimpse_code(r_text(expression)), "rm(rconsole_glimpse_value, envir = .GlobalEnv)\n"@),
{
    let e = r_text(expression);
    let s = glimpse_code(e);
    let g1 = "rconsole_glimpse_value <- eval(parse(text = '"@ + e + "'), envir = .GlobalEnv)\n"@;
    let g2 = "cat('=== expression ===\\n')\ncat('"@ + e + "\\n')\n"@;
    let g3 = "cat('=== class ===\\n')\nprint(class(rconsole_glimpse_value))\n"@;
    let g4 = "cat('=== names ===\\n')\nprint(utils::head(names(rconsole_glimpse_value), 50))\n"@;
    let g5 = "cat('=== str ===\\n')\nstr(rconsole_glimpse_value)\n"@;
    let g6 = "cat('=== summary ===\\n')\ncat(paste(utils::capture.output(summary(rconsole_glimpse_value)), collapse='\\n'))\ncat('\\n')\n"@;
    let g7 = "rm(rconsole_glimpse_value, envir = .GlobalEnv)\n"@;
    let s1 = g1 + g2;
    let s2 = s1 + g3;
    let s3 = s2 + g4;
    let s4 = s3 + g5;
    let s5 = s4 + g6;
    assert(s == s5 + g7);
    lemma_ends_of_concat(g1, g2);
    assert(s1.is_prefix_of(s));
    assert(s2.is_prefix_of(s));
    assert(s3.is_prefix_of(s));
    assert(s4.is_prefix_of(s));
    assert(s5.is_prefix_of(s));
    assert(g1.is_prefix_of(s));
    lemma_occurs_at_end(g1, g2);
    lemma_occurs_in_prefix(g2, s1, s);
    lemma_occurs_at_end(s1, g3);
    lemma_occurs_in_prefix(g3, s2, s);
    lemma_occurs_at_end(s2, g4);
    lemma_occurs_in_prefix(g4, s3, s);
    lemma_occurs_at_end(s3, g5);
    lemma_occurs_in_prefix(g5, s4, s);
    lemma_occurs_at_end(s4, g6);
    lemma_occurs_in_prefix(g6, s5, s);
    lemma_ends_of_concat(s5, g7);
}

/// What the console says about a line that is not a command; nothing for
/// an empty line.
pub open spec fn parse_error_note(e: ParseErrorModel) -> Option<Seq<char>> {
    match e {
        ParseErrorModel::Empty => None,
        ParseErrorModel::UnknownCommand(c) => Some("unknown command: "@ + c),
        ParseErrorModel::MissingArgument(c) => Some("missing argument for "@ + c),
    }
}

/// What the console says about a line that is not a command.
pub fn parse_error_message(err: &ParseError) -> (r: Option<String>)
    ensures
        opt_view(r) == parse_error_note(err@),
{
    match err {
        ParseError::Empty => None,
        ParseError::UnknownCommand(command) => {
            let mut m = "unknown command: ".to_owned();
            m.append(command.as_str());
            Some(m)
        },
        ParseError::MissingArgument(command) => {
            let mut m = "missing argument for ".to_owned();
            m.append(command);
            Some(m)
        },
    }
}

/// The content that the transcript records for a command: its argument, or
/// nothing.
pub open spec fn user_content(c: CommandModel) -> Seq<char> {
    match argument_of(c) {
        Some(a) => a,
        None => Seq::empty(),
    }
}

/// The transcript entry for a command the user gave: `[user:/label]`.
pub fn user_entry(command: &Command) -> (e: TranscriptEntry)
    ensures
        e.label@ == "[user:"@ + label_of(command@) + "]"@,
        e.kind == TranscriptKind::User,
        e.content@ == user_content(command@),
{
    let mut label = "[user:".to_owned();
    label.append(command.label());
    label.append("]");
    let content = match command {
        Command::Ask(text) | Command::R(text) | Command::RGlimpse(text) | Command::Codex(text) => {
            text.clone()
        },
        _ => String::new(),
    };
    TranscriptEntry { label, kind: TranscriptKind::User, content }
}

/// The list of commands that `/help` shows.
pub fn help_text() -> (r: &'static str)
    ensures
        r@ == "/ask <text>\n/r <code>\n/r \"\"\"   (paste multiline code, end with \"\"\")\n/r-glimpse <expr>\n/codex <task>\n/pwd\n/context\n/objects\n/reset-r\n/history\n/clear\n/quit"@,
{
    "/ask <text>\n/r <code>\n/r \"\"\"   (paste multiline code, end with \"\"\")\n/r-glimpse <expr>\n/codex <task>\n/pwd\n/context\n/objects\n/reset-r\n/history\n/clear\n/quit"
}

/// The status recorded for an R result: `error` when it raised one.
pub fn r_status(result: &ExecutionResult) -> (r: &'static str)
    ensures
        r@ == status_of(*result),
{
    if result.error.is_some() {
        "error"
    } else {
        "ok"
    }
}

/// The command recorded for `/r-glimpse expression`.
pub fn glimpse_label(expression: &str) -> (r: String)
    ensures
        r@ == "glimpse("@ + expression@ + ")"@,
{
    let mut r = "glimpse(".to_owned();
    r.append(expression);
    r.append(")");
    r
}

/// The task handed to Codex: the context note, then the user's task.
pub fn codex_task(preamble: &str, task: &str) -> (r: String)
    ensures
        r@ == preamble@ + "\nUser task:\n"@ + task@,
{
    let mut r = preamble.to_owned();
    r.append("\nUser task:\n");
    r.append(task);
    r
}

/// How `{:?}` shows an optional exit code.
pub open spec fn exit_code_text(code: Option<i32>) -> Seq<char> {
    match code {
        Some(n) => "Some("@ + signed_decimal(n as int) + ")"@,
        None => "None"@,
    }
}

/// The entries shown after a Codex run: its final message (or a note that
/// there is none, after a success), then the log, with the exit code after a
/// failure.
pub open spec fn codex_report_entries(s: CodexRunSummary) -> Seq<
    (Seq<char>, TranscriptKind, Seq<char>),
> {
    (match s.final_message {
        Some(m) => seq![("[Codex]"@, TranscriptKind::Codex, m@)],
        None => if s.success {
            seq![
                ("[Codex]"@, TranscriptKind::Codex, "completed with no final message; see Codex log for details"@),
            ]
        } else {
            Seq::empty()
        },
    }) + (if !s.success {
        seq![
            ("[Codex]"@, TranscriptKind::Codex, "task failed with exit code "@ + exit_code_text(
                s.exit_code,
            ) + "; full log: "@ + s.log_path@),
        ]
    } else {
        seq![("[system]"@, TranscriptKind::System, "Codex log: "@ + s.log_path@)]
    })
}

/// After a Codex run the console shows Codex's final message first whenever
/// there is one, whether the run succeeded or not; the note that there is no
/// final message comes only after a success without one. The last entry
/// names the log: as a system note after a success, and with the exit code
/// after a failure.
pub proof fn law_codex_report_shows_final_message(s: CodexRunSummary)
    ensures
        codex_report_entries(s).len() == (if s.final_message is Some || s.success {
            2int
        } else {
            1int
        }),
        s.final_message is Some ==> codex_report_entries(s)[0] == (
            "[Codex]"@,
            TranscriptKind::Codex,
            s.final_message->0@,
        ),
        s.final_message is None ==> (codex_report_entries(s)[0] == (
            "[Codex]"@,
            TranscriptKind::Codex,
            "completed with no final message; see Codex log for details"@,
        ) <==> s.success),
        s.success ==> codex_report_entries(s).last() == (
            "[system]"@,
            TranscriptKind::System,
            "Codex log: "@ + s.log_path@,
        ),
        !s.success ==> codex_report_entries(s).last() == (
            "[Codex]"@,
            TranscriptKind::Codex,
            "task failed with exit code "@ + (match s.exit_code {
                Some(n) => "Some("@ + signed_decimal(n as int) + ")"@,
                None => "None"@,
            }) + "; full log: "@ + s.log_path@,
        ),
{
    let e = codex_report_entries(s);
    if s.final_message is None && !s.success {
        let last = e[0];
        assert(last.0 == "[Codex]"@);
        assert(last.2 == "task failed with exit code "@ + exit_code_text(s.exit_code) + "; full log: "@ + s.log_path@);
        if last.2 == "completed with no final message; see Codex log for details"@ {
            reveal_strlit("completed with no final message; see Codex log for details");
            reveal_strlit("task failed with exit code ");
            assert(last.2[0] == "task failed with exit code "@[0]);
        }
    }
}

fn entry(label: &str, kind: TranscriptKind, content: String) -> (e: TranscriptEntry)
    ensures
        e.label@ == label@,
        e.kind == kind,
        e.content == content,
{
    TranscriptEntry { label: label.to_owned(), kind, content }
}

/// The entries shown after a Codex run.
pub fn codex_report(summary: &CodexRunSummary) -> (r: Vec<TranscriptEntry>)
    ensures
        entries_view(r@) == codex_report_entries(*summary),
{
    let mut r: Vec<TranscriptEntry> = Vec::new();
    if let Some(message) = &summary.final_message {
        r.push(entry("[Codex]", TranscriptKind::Codex, message.clone()));
    } else if summary.success {
        r.push(
            entry(
                "[Codex]",
                TranscriptKind::Codex,
                "completed with no final message; see Codex log for details".to_owned(),
            ),
        );
    }
    let ghost first = entries_view(r@);
    assert(first =~= codex_report_entries(*summary).take(first.len() as int));
    if !summary.success {
        let mut m = "task failed with exit code ".to_owned();
        match summary.exit_code {
            Some(code) => {
                m.append("Some(");
                push_signed_decimal(&mut m, code);
                m.append(")");
            },
            None => {
                m.append("None");
            },
        }
        m.append("; full log: ");
        m.append(summary.log_path.as_str());
        assert(m@ =~= "task failed with exit code "@ + exit_code_text(summary.exit_code)
            + "; full log: "@ + summary.log_path@);
        r.push(entry("[Codex]", TranscriptKind::Codex, m));
    } else {
        let mut m = "Codex log: ".to_owned();
        m.append(summary.log_path.as_str());
        r.push(entry("[system]", TranscriptKind::System, m));
    }
    assert(entries_view(r@) =~= codex_report_entries(*summary));
    r
}

/// The entries that show an R result: its output, its error, its plot, or
/// a note that there was none of these.
pub open spec fn r_result_contents(v: ExecutionResultModel) -> Seq<Seq<char>> {
    (if v.output.len() > 0 {
        seq![v.output]
    } else {
        Seq::empty()
    }) + (match v.error {
        Some(e) => seq!["error: "@ + e],
        None => Seq::empty(),
    }) + (match v.plot_path {
        Some(p) => seq!["plot: "@ + p],
        None => Seq::empty(),
    }) + (if v.output.len() == 0 && v.error is None && v.plot_path is None {
        seq!["(no output)"@]
    } else {
        Seq::empty()
    })
}

/// The entries, all labelled `[R]`, that show an R result.
pub fn r_result_entries(result: &ExecutionResult) -> (r: Vec<TranscriptEntry>)
    ensures
        entries_view(r@) == r_result_contents(result@).map_values(
            |c: Seq<char>| ("[R]"@, TranscriptKind::R, c),
        ),
{
    let mut r: Vec<TranscriptEntry> = Vec::new();
    let has_output = result.output.as_str().unicode_len() > 0;
    if has_output {
        r.push(entry("[R]", TranscriptKind::R, result.output.clone()));
    }
    if let Some(error) = &result.error {
        let mut m = "error: ".to_owned();
        m.append(error.as_str());
        r.push(entry("[R]", TranscriptKind::R, m));
    }
    if let Some(plot_path) = &result.plot_path {
        let mut m = "plot: ".to_owned();
        m.append(plot_path.as_str());
        r.push(entry("[R]", TranscriptKind::R, m));
    }
    if !has_output && result.error.is_none() && result.plot_path.is_none() {
        r.push(entry("[R]", TranscriptKind::R, "(no output)".to_owned()));
    }
    assert(entries_view(r@) =~= r_result_contents(result@).map_values(
        |c: Seq<char>| ("[R]"@, TranscriptKind::R, c),
    ));
    r
}


/// How R prints a character vector on one line: a prefix such as `[1]`,
/// then each element after a space and between double quotes.
pub open spec fn quoted_listing(prefix: Seq<char>, names: Seq<Seq<char>>) -> Seq<char>
    decreases names.len(),
{
    if names.len() == 0 {
        prefix
    } else {
        quoted_listing(prefix, names.drop_last()) + seq![' ', '"'] + names.last() + seq!['"']
    }
}

proof fn lemma_listing_pieces(prefix: Seq<char>, names: Seq<Seq<char>>)
    requires
        !prefix.contains('"'),
        forall|i: int| 0 <= i < names.len() ==> !(#[trigger] names[i]).contains('"'),
    ensures
        split_on(quoted_listing(prefix, names), '"').len() == 2 * names.len() + 1,
        odd_pieces(split_on(quoted_listing(prefix, names), '"')) == names,
    decreases names.len(),
{
    let q = quoted_listing(prefix, names);
    if names.len() == 0 {
        lemma_split_append_plain(Seq::empty(), prefix, '"');
        assert(Seq::<char>::empty() + prefix =~= prefix);
        assert(odd_pieces(split_on(q, '"')) =~= names);
    } else {
        let rest = names.drop_last();
        let name = names.last();
        assert forall|i: int| 0 <= i < rest.len() implies !(#[trigger] rest[i]).contains('"') by {
            assert(rest[i] == names[i]);
        }
        assert(!name.contains('"')) by {
            assert(name == names[names.len() - 1]);
        }
        lemma_listing_pieces(prefix, rest);
        let q0 = quoted_listing(prefix, rest);
        let p0 = split_on(q0, '"');
        let q1 = q0.push(' ');
        let q2 = q1.push('"');
        let q3 = q2 + name;
        assert(q == q3.push('"')) by {
            assert(q =~= q3.push('"'));
        }
        lemma_split_push(q0, ' ', '"');
        lemma_split_push(q1, '"', '"');
        lemma_split_append_plain(q2, name, '"');
        lemma_split_push(q3, '"', '"');
        let p2 = split_on(q2, '"');
        assert(p2.last() + name =~= name);
        let p = split_on(q, '"');
        assert(p.len() == p0.len() + 2);
        assert(p[p.len() - 2] == name);
        assert(odd_pieces(p) =~= names) by {
            assert forall|k: int| 0 <= k < names.len() implies #[trigger] odd_pieces(p)[k]
                == names[k] by {
                if k < rest.len() {
                    assert(odd_pieces(p0)[k] == rest[k]);
                    assert(p[2 * k + 1] == p0[2 * k + 1]);
                }
            }
        }
    }
}

/// R's listing of a character vector reads back as the vector: the names
/// that `parse_r_objects` finds are the elements, in order, whenever neither
/// the prefix nor an element holds a double quote.
pub proof fn lemma_listing_reads_back(prefix: Seq<char>, names: Seq<Seq<char>>)
    requires
        !prefix.contains('"'),
        forall|i: int| 0 <= i < names.len() ==> !(#[trigger] names[i]).contains('"'),
    ensures
        odd_pieces(split_on(quoted_listing(prefix, names), '"')) == names,
{
    lemma_listing_pieces(prefix, names);
}


/// What R reads from the characters of a single-quoted string literal: a
/// backslash before a backslash or a quote stands for that character.
pub open spec fn r_read_text(t: Seq<char>) -> Seq<char>
    decreases t.len(),
{
    if t.len() == 0 {
        Seq::empty()
    } else if t.len() >= 2 && t[0] == '\\' && (t[1] == '\\' || t[1] == '\'') {
        seq![t[1]] + r_read_text(t.skip(2))
    } else {
        seq![t[0]] + r_read_text(t.skip(1))
    }
}

/// How one character is written inside a single-quoted R string.
pub open spec fn r_char_text(c: char) -> Seq<char> {
    if c == '\\' {
        seq!['\\', '\\']
    } else if c == '\'' {
        seq!['\\', '\'']
    } else {
        seq![c]
    }
}

proof fn lemma_replaced_one(c: char, from: char, to: Seq<char>)
    ensures
        replaced(seq![c], from, to) == (if c == from {
            to
        } else {
            seq![c]
        }),
{
    assert(seq![c].drop_last() =~= Seq::<char>::empty());
    assert(replaced(Seq::<char>::empty(), from, to) == Seq::<char>::empty());
    assert(seq![c].last() == c);
    assert(Seq::<char>::empty() + (if c == from {
        to
    } else {
        seq![c]
    }) =~= (if c == from {
        to
    } else {
        seq![c]
    }));
}

proof fn lemma_r_text_first(v: Seq<char>)
    requires
        v.len() > 0,
    ensures
        r_text(v) == r_char_text(v[0]) + r_text(v.skip(1)),
{
    let c = v[0];
    let head = seq![c];
    assert(v =~= head + v.skip(1));
    lemma_replaced_concat(head, v.skip(1), '\\', seq!['\\', '\\']);
    lemma_replaced_one(c, '\\', seq!['\\', '\\']);
    let a = replaced(head, '\\', seq!['\\', '\\']);
    let b = replaced(v.skip(1), '\\', seq!['\\', '\\']);
    lemma_replaced_concat(a, b, '\'', seq!['\\', '\'']);
    if c == '\\' {
        assert(a =~= seq!['\\'] + seq!['\\']);
        lemma_replaced_concat(seq!['\\'], seq!['\\'], '\'', seq!['\\', '\'']);
        lemma_replaced_one('\\', '\'', seq!['\\', '\'']);
        assert(replaced(a, '\'', seq!['\\', '\'']) =~= seq!['\\', '\\']);
    } else {
        lemma_replaced_one(c, '\'', seq!['\\', '\'']);
        assert(replaced(a, '\'', seq!['\\', '\'']) =~= r_char_text(c));
    }
}

/// Text escaped for R reads back as itself: the glimpse code hands R the
/// expression exactly as the user typed it.
pub proof fn lemma_r_text_reads_back(v: Seq<char>)
    ensures
        r_read_text(r_text(v)) == v,
    decreases v.len(),
{
    if v.len() == 0 {
        assert(r_text(v) =~= Seq::<char>::empty());
    } else {
        lemma_r_text_first(v);
        lemma_r_text_reads_back(v.skip(1));
        let t = r_text(v);
        let rest = r_text(v.skip(1));
        if v[0] == '\\' || v[0] == '\'' {
            assert(t.skip(2) =~= rest);
        } else {
            assert(t.skip(1) =~= rest);
        }
        assert(v =~= seq![v[0]] + v.skip(1));
    }
}


/// What the program does for a command.
#[derive(Debug, Clone, PartialEq, Eq)]
pub enum CommandPlan {
    /// Show the list of commands.
    ShowHelp,
    /// Stop reading commands.
    Quit,
    /// Show the working directory.
    ShowCwd,
    /// Show the shared session context.
    ShowContext,
    /// Show the transcript.
    ShowHistory,
    /// Clear the terminal.
    ClearScreen,
    /// Show the chat backend's answer.
    Answer(String),
    /// Run R code, record `recorded_command` as the last R command and,
    /// for a glimpse, record the output as the glimpse of `glimpse_of`.
    RunR { code: String, recorded_command: String, glimpse_of: Option<String> },
    /// Hand the task to Codex.
    DelegateToCodex(String),
    /// List the R objects.
    ListObjects,
    /// Restart R and clear the shared session context.
    ResetR,
}

/// A plan as a mathematical value.
pub enum CommandPlanModel {
    ShowHelp,
    Quit,
    ShowCwd,
    ShowContext,
    ShowHistory,
    ClearScreen,
    Answer(Seq<char>),
    RunR { code: Seq<char>, recorded_command: Seq<char>, glimpse_of: Option<Seq<char>> },
    DelegateToCodex(Seq<char>),
    ListObjects,
    ResetR,
}

impl View for CommandPlan {
    type V = CommandPlanModel;

    open spec fn view(&self) -> CommandPlanModel {
        match self {
            CommandPlan::ShowHelp => CommandPlanModel::ShowHelp,
            CommandPlan::Quit => CommandPlanModel::Quit,
            CommandPlan::ShowCwd => CommandPlanModel::ShowCwd,
            CommandPlan::ShowContext => CommandPlanModel::ShowContext,
            CommandPlan::ShowHistory => CommandPlanModel::ShowHistory,
            CommandPlan::ClearScreen => CommandPlanModel::ClearScreen,
            CommandPlan::Answer(a) => CommandPlanModel::Answer(a@),
            CommandPlan::RunR { code, recorded_command, glimpse_of } => CommandPlanModel::RunR {
                code: code@,
                recorded_command: recorded_command@,
                glimpse_of: opt_view(*glimpse_of),
            },
            CommandPlan::DelegateToCodex(t) => CommandPlanModel::DelegateToCodex(t@),
            CommandPlan::ListObjects => CommandPlanModel::ListObjects,
            CommandPlan::ResetR => CommandPlanModel::ResetR,
        }
    }
}

/// What the program does for each command: `/r` runs the code as typed,
/// `/r-glimpse` runs the glimpse code of the expression, `/ask` shows the
/// placeholder backend's answer.
pub open spec fn command_plan(c: CommandModel) -> CommandPlanModel {
    match c {
        CommandModel::Help => CommandPlanModel::ShowHelp,
        CommandModel::Quit => CommandPlanModel::Quit,
        CommandModel::Pwd => CommandPlanModel::ShowCwd,
        CommandModel::Context => CommandPlanModel::ShowContext,
        CommandModel::History => CommandPlanModel::ShowHistory,
        CommandModel::Clear => CommandPlanModel::ClearScreen,
        CommandModel::Ask(p) => CommandPlanModel::Answer(placeholder_answer(p)),
        CommandModel::R(code) => CommandPlanModel::RunR {
            code,
            recorded_command: code,
            glimpse_of: None,
        },
        CommandModel::RGlimpse(e) => CommandPlanModel::RunR {
            code: glimpse_code(r_text(e)),
            recorded_command: "glimpse("@ + e + ")"@,
            glimpse_of: Some(e),
        },
        CommandModel::Codex(t) => CommandPlanModel::DelegateToCodex(t),
        CommandModel::Objects => CommandPlanModel::ListObjects,
        CommandModel::ResetR => CommandPlanModel::ResetR,
    }
}

/// Decides what the program does for a command.
pub fn plan_command(command: Command) -> (p: CommandPlan)
    ensures
        p@ == command_plan(command@),
{
    match command {
        Command::Help => CommandPlan::ShowHelp,
        Command::Quit => CommandPlan::Quit,
        Command::Pwd => CommandPlan::ShowCwd,
        Command::Context => CommandPlan::ShowContext,
        Command::History => CommandPlan::ShowHistory,
        Command::Clear => CommandPlan::ClearScreen,
        Command::Ask(prompt) => {
            let backend = PlaceholderBackend;
            CommandPlan::Answer(backend.ask(prompt.as_str()))
        },
        Command::R(code) => {
            let recorded_command = code.clone();
            CommandPlan::RunR { code, recorded_command, glimpse_of: None }
        },
        Command::RGlimpse(expression) => {
            let code = build_r_glimpse_code(expression.as_str());
            let recorded_command = glimpse_label(expression.as_str());
            CommandPlan::RunR { code, recorded_command, glimpse_of: Some(expression) }
        },
        Command::Codex(task) => CommandPlan::DelegateToCodex(task),
        Command::Objects => CommandPlan::ListObjects,
        Command::ResetR => CommandPlan::ResetR,
    }
}

}
