//! The program's command line and the multi-line form of `/r`.

use vstd::prelude::*;

use crate::app::commands::{label_of, CommandModel};
use crate::app::router::{lemma_label_and_text_parse, parse_line, ParseErrorModel};
use crate::text::{
    join, join_strings, join_strings_from, lemma_trim_of_trim_end, str_eq, trim, trim_end,
    trim_end_str, views,
};

verus! {

/// What the command line asks the program to do.
#[derive(Debug, Clone, PartialEq, Eq)]
pub enum CliAction {
    StartRepl,
    RunCommand(String),
    ShowHelp,
    ShowVersion,
    Error(String),
}

/// A command-line action as a mathematical value.
pub enum CliActionModel {
    StartRepl,
    RunCommand(Seq<char>),
    ShowHelp,
    ShowVersion,
    Error(Seq<char>),
}

impl View for CliAction {
    type V = CliActionModel;

    open spec fn view(&self) -> CliActionModel {
        match self {
            CliAction::StartRepl => CliActionModel::StartRepl,
            CliAction::RunCommand(s) => CliActionModel::RunCommand(s@),
            CliAction::ShowHelp => CliActionModel::ShowHelp,
            CliAction::ShowVersion => CliActionModel::ShowVersion,
            CliAction::Error(s) => CliActionModel::Error(s@),
        }
    }
}

/// What the arguments (the program name left out) ask for.
pub open spec fn cli_action(args: Seq<Seq<char>>) -> CliActionModel {
    if args.len() == 0 {
        CliActionModel::StartRepl
    } else if args.len() == 1 && (args[0] == "--help"@ || args[0] == "-h"@) {
        CliActionModel::ShowHelp
    } else if args.len() == 1 && (args[0] == "--version"@ || args[0] == "-V"@) {
        CliActionModel::ShowVersion
    } else if args.len() == 1 && args[0] == "--command"@ {
        CliActionModel::Error("missing value for --command"@)
    } else if args[0] == "--command"@ {
        CliActionModel::RunCommand(join(args.skip(1), seq![' ']))
    } else {
        CliActionModel::Error("unsupported arguments: "@ + join(args, seq![' ']))
    }
}

/// Reads the command line (the program name left out).
pub fn parse_cli(args: Vec<String>) -> (a: CliAction)
    ensures
        a@ == cli_action(views(args@)),
{
    proof {
        reveal_strlit(" ");
        assert(" "@ =~= seq![' ']);
    }
    let n = args.len();
    if n == 0 {
        return CliAction::StartRepl;
    }
    let first = args[0].as_str();
    assert(views(args@)[0] == first@);
    if n == 1 && (str_eq(first, "--help") || str_eq(first, "-h")) {
        return CliAction::ShowHelp;
    }
    if n == 1 && (str_eq(first, "--version") || str_eq(first, "-V")) {
        return CliAction::ShowVersion;
    }
    if str_eq(first, "--command") {
        if n == 1 {
            return CliAction::Error("missing value for --command".to_owned());
        }
        return CliAction::RunCommand(join_strings_from(args.as_slice(), 1, " "));
    }
    let mut message = "unsupported arguments: ".to_owned();
    message.append(join_strings(args.as_slice(), " ").as_str());
    CliAction::Error(message)
}

/// The usage text of the program of the given version.
pub open spec fn usage(version: Seq<char>) -> Seq<char> {
    "rconsole "@ + version
        + "\n\nUsage:\n  rconsole\n  rconsole --command \"<slash command>\"\n  rconsole --help\n  rconsole --version\n\nExamples:\n  rconsole\n  rconsole --command \"/ask explain coxph separation\"\n  rconsole --command \"/r 1+1\""@
}

/// The usage text of the program of the given version.
pub fn usage_text(version: &str) -> (r: String)
    ensures
        r@ == usage(version@),
{
    let mut r = "rconsole ".to_owned();
    r.append(version);
    r.append(
        "\n\nUsage:\n  rconsole\n  rconsole --command \"<slash command>\"\n  rconsole --help\n  rconsole --version\n\nExamples:\n  rconsole\n  rconsole --command \"/ask explain coxph separation\"\n  rconsole --command \"/r 1+1\"",
    );
    r
}

/// Whether a console line opens multi-line R code: `/r """` and nothing but
/// whitespace after it.
pub fn is_multiline_opener(line: &str) -> (b: bool)
    ensures
        b == (trim_end(line@) == "/r \"\"\""@),
{
    let t = trim_end_str(line);
    str_eq(t.as_str(), "/r \"\"\"")
}

/// Whether a line closes multi-line R code: `"""` and nothing but whitespace
/// after it.
pub fn is_multiline_closer(line: &str) -> (b: bool)
    ensures
        b == (trim_end(line@) == "\"\"\""@),
{
    let t = trim_end_str(line);
    str_eq(t.as_str(), "\"\"\"")
}

/// The `/r` command for the collected multi-line code.
pub fn multiline_command(code: &str) -> (r: String)
    ensures
        r@ == "/r "@ + trim_end(code@),
{
    let mut r = "/r ".to_owned();
    r.append(trim_end_str(code).as_str());
    r
}


/// Code pasted between `/r """` and `"""` reaches R as one `/r` command
/// whose code is the pasted text trimmed, whenever it is not blank.
pub proof fn lemma_multiline_command_parses(code: Seq<char>)
    requires
        trim(code).len() > 0,
    ensures
        parse_line("/r "@ + trim_end(code)) == Ok::<CommandModel, ParseErrorModel>(
            CommandModel::R(trim(code)),
        ),
{
    reveal_strlit("/r ");
    reveal_strlit("/r");
    let c = CommandModel::R(trim(code));
    lemma_trim_of_trim_end(code);
    assert(label_of(c) + seq![' '] =~= "/r "@);
    lemma_label_and_text_parse(c, trim_end(code));
}


/// The R code collected after `/r """`, line by line.
pub struct MultilineCode {
    code: String,
}

impl View for MultilineCode {
    type V = Seq<char>;

    closed spec fn view(&self) -> Seq<char> {
        self.code@
    }
}

impl MultilineCode {
    /// Nothing collected yet.
    pub fn new() -> (m: Self)
        ensures
            m@ == Seq::<char>::empty(),
    {
        MultilineCode { code: String::new() }
    }

    /// Takes one line as read, with its line end. A closing line ends the
    /// code and is not part of it; any other line is added as it is.
    pub fn feed(&mut self, line: &str) -> (closed: bool)
        ensures
            closed == (trim_end(line@) == "\"\"\""@),
            closed ==> final(self)@ == old(self)@,
            !closed ==> final(self)@ == old(self)@ + line@,
    {
        if is_multiline_closer(line) {
            true
        } else {
            self.code.append(line);
            false
        }
    }

    /// The `/r` command for the code collected so far.
    pub fn command(&self) -> (r: String)
        ensures
            r@ == "/r "@ + trim_end(self@),
    {
        multiline_command(self.code.as_str())
    }
}

}
