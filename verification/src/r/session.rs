//! The R session's side that can be computed: where plots go, the script
//! that wraps each command, and the reading of R's framed response.

use vstd::prelude::*;

use crate::path::{join_path, opt_view, path_join};
use crate::r::protocol::{BEGIN_MARKER, END_MARKER, ERROR_MARKER, PLOT_MARKER};
use crate::text::{
    ends_with, lemma_ends_of_concat, lemma_occurs_at_end, lemma_occurs_extend, lemma_prefix_extend,
    occurs, push_around,
    join, join_strings, push_zero_padded, replace_char, replaced, str_eq, str_to_chars,
    chars_to_string, trim, trim_str, views, zero_padded, decimal,
};

verus! {

/// What one command printed in R: its output, the message of an error it
/// raised, and the plot it drew.
#[derive(Debug, Clone, PartialEq, Eq)]
pub struct ExecutionResult {
    pub output: String,
    pub error: Option<String>,
    pub plot_path: Option<String>,
}

/// An execution result as a mathematical value.
pub struct ExecutionResultModel {
    pub output: Seq<char>,
    pub error: Option<Seq<char>>,
    pub plot_path: Option<Seq<char>>,
}

impl View for ExecutionResult {
    type V = ExecutionResultModel;

    open spec fn view(&self) -> ExecutionResultModel {
        ExecutionResultModel {
            output: self.output@,
            error: opt_view(self.error),
            plot_path: opt_view(self.plot_path),
        }
    }
}

/// A path written for a single-quoted R string: backslashes become `/`,
/// quotes are escaped.
pub open spec fn r_path_text(path: Seq<char>) -> Seq<char> {
    replaced(replaced(path, '\\', seq!['/']), '\'', seq!['\\', '\''])
}

/// Writes a path for a single-quoted R string.
pub fn escape_r_string(path: &str) -> (r: String)
    ensures
        r@ == r_path_text(path@),
{
    proof {
        reveal_strlit("/");
        reveal_strlit("\\'");
        assert("/"@ =~= seq!['/']);
        assert("\\'"@ =~= seq!['\\', '\'']);
    }
    let step = replace_char(path, '\\', "/");
    replace_char(step.as_str(), '\'', "\\'")
}

/// The file name of the plot with the given number: `plot-NNNN.png`.
pub open spec fn plot_file_name(id: nat) -> Seq<char> {
    "plot-"@ + zero_padded(decimal(id), 4) + ".png"@
}

/// Where the plot with the given number is written.
pub fn plot_path(artifacts_dir: &str, id: u64) -> (r: String)
    ensures
        r@ == path_join(artifacts_dir@, plot_file_name(id as nat)),
{
    let mut name = String::new();
    name.append("plot-");
    push_zero_padded(&mut name, id, 4);
    name.append(".png");
    join_path(artifacts_dir, name.as_str())
}


/// The R script that runs one command file: it frames the output with the
/// markers, reports an error on a marked line, and reports the plot file
/// when the command drew one. Both paths are escaped for R.
pub open spec fn r_wrapper(command_file: Seq<char>, plot_file: Seq<char>) -> Seq<char> {
    let c = r_path_text(command_file);
    let p = r_path_text(plot_file);
    ("cat('"@ + BEGIN_MARKER@ + "\\n')\n"@)
        + ("if (file.exists('"@ + p + "')) file.remove('"@ + p + "')\n.rconsole_plot_opened <- FALSE\n"@)
        + ("try({ grDevices::png(filename = '"@ + p + "'); .rconsole_plot_opened <- TRUE }, silent = TRUE)\n"@)
        + ("tryCatch({\n"@)
        + ("source('"@ + c + "', local = .GlobalEnv, echo = FALSE, print.eval = TRUE, max.deparse.length = Inf)"@)
        + ("\n}, error = function(e) {\n"@)
        + ("cat('"@ + ERROR_MARKER@ + "', conditionMessage(e), '\\n', sep = ' ')"@)
        + ("\n})\nif (.rconsole_plot_opened) invisible(try(grDevices::dev.off(), silent = TRUE))\n"@)
        + ("if (file.exists('"@ + p + "') && isTRUE(file.info('"@ + p + "')$size > 0)) cat('"@ + PLOT_MARKER@ + "', '"@ + p + "', '\\n', sep = ' ')\n"@)
        + ("cat('"@ + END_MARKER@ + "\\n')\nflush.console()\n"@)
}

/// The script that R is sent to run the command in `command_file`, with its
/// plot going to `plot_file`.
pub fn wrap_command(command_file: &str, plot_file: &str) -> (r: String)
    ensures
        r@ == r_wrapper(command_file@, plot_file@),
        ("cat('"@ + BEGIN_MARKER@ + "\\n')\n"@).is_prefix_of(r@),
        occurs("try({ grDevices::png(filename = '"@ + r_path_text(plot_file@) + "'); .rconsole_plot_opened <- TRUE }, silent = TRUE)\n"@, r@),
        occurs(
            "source('"@ + r_path_text(command_file@) + "', local = .GlobalEnv, echo = FALSE, print.eval = TRUE, max.deparse.length = Inf)"@,
            r@,
        ),
        occurs("cat('"@ + ERROR_MARKER@ + "', conditionMessage(e), '\\n', sep = ' ')"@, r@),
        occurs(
            "if (file.exists('"@ + r_path_text(plot_file@) + "') && isTRUE(file.info('"@ + r_path_text(plot_file@) + "')$size > 0)) cat('"@ + PLOT_MARKER@ + "', '"@ + r_path_text(plot_file@) + "', '\\n', sep = ' ')\n"@,
            r@,
        ),
        ends_with(r@, "cat('"@ + END_MARKER@ + "\\n')\nflush.console()\n"@),
{
    let c = escape_r_string(command_file);
    let p = escape_r_string(plot_file);
    let c = c.as_str();
    let p = p.as_str();
    let mut r = "cat('".to_owned();
    r.append(BEGIN_MARKER);
    r.append("\\n')\n");
    let mut clear = "if (file.exists('".to_owned();
    clear.append(p);
    clear.append("')) file.remove('");
    clear.append(p);
    clear.append("')\n.rconsole_plot_opened <- FALSE\n");
    r.append(clear.as_str());
    push_around(&mut r, "try({ grDevices::png(filename = '", p, "'); .rconsole_plot_opened <- TRUE }, silent = TRUE)\n");
    r.append("tryCatch({\n");
    push_around(&mut r, "source('", c, "', local = .GlobalEnv, echo = FALSE, print.eval = TRUE, max.deparse.length = Inf)");
    r.append("\n}, error = function(e) {\n");
    push_around(&mut r, "cat('", ERROR_MARKER, "', conditionMessage(e), '\\n', sep = ' ')");
    r.append("\n})\nif (.rconsole_plot_opened) invisible(try(grDevices::dev.off(), silent = TRUE))\n");
    let mut report = "if (file.exists('".to_owned();
    report.append(p);
    report.append("') && isTRUE(file.info('");
    report.append(p);
    report.append("')$size > 0)) cat('");
    report.append(PLOT_MARKER);
    report.append("', '");
    report.append(p);
    report.append("', '\\n', sep = ' ')\n");
    r.append(report.as_str());
    push_around(&mut r, "cat('", END_MARKER, "\\n')\nflush.console()\n");
    proof {
        lemma_wrapper_runs_command(command_file@, plot_file@);
    }
    r
}

/// The script sent to R runs the command as the console promises: it first
/// prints the begin marker; it opens a PNG device on the escaped plot file;
/// it sources the escaped command file into the global environment without
/// echoing the code but printing each visible value, as the console would;
/// an error prints the error marker with the message; a non-empty plot file
/// is reported after the plot marker; it ends by printing the end marker and
/// flushing the console.
pub proof fn lemma_wrapper_runs_command(command_file: Seq<char>, plot_file: Seq<char>)
    ensures
        ("cat('"@ + BEGIN_MARKER@ + "\\n')\n"@).is_prefix_of(r_wrapper(command_file, plot_file)),
        occurs("try({ grDevices::png(filename = '"@ + r_path_text(plot_file) + "'); .rconsole_plot_opened <- TRUE }, silent = TRUE)\n"@, r_wrapper(command_file, plot_file)),
        occurs(
            "source('"@ + r_path_text(command_file) + "', local = .GlobalEnv, echo = FALSE, print.eval = TRUE, max.deparse.length = Inf)"@,
            r_wrapper(command_file, plot_file),
        ),
        occurs("cat('"@ + ERROR_MARKER@ + "', conditionMessage(e), '\\n', sep = ' ')"@, r_wrapper(command_file, plot_file)),
        occurs(
            "if (file.exists('"@ + r_path_text(plot_file) + "') && isTRUE(file.info('"@ + r_path_text(plot_file) + "')$size > 0)) cat('"@ + PLOT_MARKER@ + "', '"@ + r_path_text(plot_file) + "', '\\n', sep = ' ')\n"@,
            r_wrapper(command_file, plot_file),
        ),
        ends_with(r_wrapper(command_file, plot_file), "cat('"@ + END_MARKER@ + "\\n')\nflush.console()\n"@),
{
    let c = r_path_text(command_file);
    let p = r_path_text(plot_file);
    let g1 = "cat('"@ + BEGIN_MARKER@ + "\\n')\n"@;
    let g2 = "if (file.exists('"@ + p + "')) file.remove('"@ + p + "')\n.rconsole_plot_opened <- FALSE\n"@;
    let g3 = "try({ grDevices::png(filename = '"@ + p + "'); .rconsole_plot_opened <- TRUE }, silent = TRUE)\n"@;
    let g4 = "tryCatch({\n"@;
    let g5 = "source('"@ + c + "', local = .GlobalEnv, echo = FALSE, print.eval = TRUE, max.deparse.length = Inf)"@;
    let g6 = "\n}, error = function(e) {\n"@;
    let g7 = "cat('"@ + ERROR_MARKER@ + "', conditionMessage(e), '\\n', sep = ' ')"@;
    let g8 = "\n})\nif (.rconsole_plot_opened) invisible(try(grDevices::dev.off(), silent = TRUE))\n"@;
    let g9 = "if (file.exists('"@ + p + "') && isTRUE(file.info('"@ + p + "')$size > 0)) cat('"@ + PLOT_MARKER@ + "', '"@ + p + "', '\\n', sep = ' ')\n"@;
    let g10 = "cat('"@ + END_MARKER@ + "\\n')\nflush.console()\n"@;
    let s1 = g1 + g2;
    let s2 = s1 + g3;
    let s3 = s2 + g4;
    let s4 = s3 + g5;
    let s5 = s4 + g6;
    let s6 = s5 + g7;
    let s7 = s6 + g8;
    let s8 = s7 + g9;
    let s9 = s8 + g10;
    assert(r_wrapper(command_file, plot_file) == s9);
    lemma_ends_of_concat(g1, g2);
    lemma_prefix_extend(g1, s1, g3);
    lemma_prefix_extend(g1, s2, g4);
    lemma_prefix_extend(g1, s3, g5);
    lemma_prefix_extend(g1, s4, g6);
    lemma_prefix_extend(g1, s5, g7);
    lemma_prefix_extend(g1, s6, g8);
    lemma_prefix_extend(g1, s7, g9);
    lemma_prefix_extend(g1, s8, g10);
    lemma_occurs_at_end(s1, g3);
    lemma_occurs_extend(g3, s2, g4);
    lemma_occurs_extend(g3, s3, g5);
    lemma_occurs_extend(g3, s4, g6);
    lemma_occurs_extend(g3, s5, g7);
    lemma_occurs_extend(g3, s6, g8);
    lemma_occurs_extend(g3, s7, g9);
    lemma_occurs_extend(g3, s8, g10);
    lemma_occurs_at_end(s3, g5);
    lemma_occurs_extend(g5, s4, g6);
    lemma_occurs_extend(g5, s5, g7);
    lemma_occurs_extend(g5, s6, g8);
    lemma_occurs_extend(g5, s7, g9);
    lemma_occurs_extend(g5, s8, g10);
    lemma_occurs_at_end(s5, g7);
    lemma_occurs_extend(g7, s6, g8);
    lemma_occurs_extend(g7, s7, g9);
    lemma_occurs_extend(g7, s8, g10);
    lemma_occurs_at_end(s7, g9);
    lemma_occurs_extend(g9, s8, g10);
    lemma_ends_of_concat(s8, g10);
}

/// `s` without the `\r` and `\n` characters at its end.
pub open spec fn strip_line_end(s: Seq<char>) -> Seq<char>
    decreases s.len(),
{
    if s.len() > 0 && (s.last() == '\r' || s.last() == '\n') {
        strip_line_end(s.drop_last())
    } else {
        s
    }
}

/// Whether a line of R's response ends the response.
#[derive(Debug, Clone, Copy, PartialEq, Eq)]
pub enum LineStep {
    Continue,
    Finished,
}

/// The reader of one framed response of R: it skips what precedes the
/// begin marker and collects the output, the error and the plot until the
/// end marker.
pub struct ResponseReader {
    seen_begin: bool,
    output: Vec<String>,
    error: Option<String>,
    plot_path: Option<String>,
    expected_plot: String,
}

/// The state of a response reader as a mathematical value.
pub struct ReaderModel {
    pub seen_begin: bool,
    pub output: Seq<Seq<char>>,
    pub error: Option<Seq<char>>,
    pub plot_path: Option<Seq<char>>,
    pub expected_plot: Seq<char>,
}

impl View for ResponseReader {
    type V = ReaderModel;

    closed spec fn view(&self) -> ReaderModel {
        ReaderModel {
            seen_begin: self.seen_begin,
            output: views(self.output@),
            error: opt_view(self.error),
            plot_path: opt_view(self.plot_path),
            expected_plot: self.expected_plot@,
        }
    }
}

/// What the reader does with one line, as read with its line end.
pub open spec fn next_state(m: ReaderModel, line: Seq<char>) -> (ReaderModel, LineStep) {
    let t = strip_line_end(line);
    let error_prefix = ERROR_MARKER@ + seq![' '];
    let plot_prefix = PLOT_MARKER@ + seq![' '];
    if t == BEGIN_MARKER@ {
        (ReaderModel { seen_begin: true, ..m }, LineStep::Continue)
    } else if !m.seen_begin {
        (m, LineStep::Continue)
    } else if t == END_MARKER@ {
        (m, LineStep::Finished)
    } else if error_prefix.is_prefix_of(t) {
        (
            ReaderModel { error: Some(trim(t.skip(error_prefix.len() as int))), ..m },
            LineStep::Continue,
        )
    } else if plot_prefix.is_prefix_of(t) {
        let rest = t.skip(plot_prefix.len() as int);
        (
            ReaderModel {
                plot_path: Some(
                    if rest.len() > 0 {
                        rest
                    } else {
                        m.expected_plot
                    },
                ),
                ..m
            },
            LineStep::Continue,
        )
    } else {
        (ReaderModel { output: m.output.push(t), ..m }, LineStep::Continue)
    }
}

/// The result that a finished reader reports: the output lines joined and
/// trimmed, the error and the plot.
pub open spec fn finished(m: ReaderModel) -> ExecutionResultModel {
    ExecutionResultModel {
        output: trim(join(m.output, seq!['\n'])),
        error: m.error,
        plot_path: m.plot_path,
    }
}

/// Whether `v` starts with the characters of `prefix`.
fn starts_with_str(v: &Vec<char>, prefix: &str) -> (b: bool)
    ensures
        b == prefix@.is_prefix_of(v@),
{
    let n = prefix.unicode_len();
    if n > v.len() {
        return false;
    }
    let b = crate::text::range_eq_str(v.as_slice(), 0, n, prefix);
    assert(b == (v@.subrange(0, n as int) == prefix@));
    proof {
        if b {
            assert forall|i: int| 0 <= i < prefix@.len() implies prefix@[i] == v@[i] by {
                assert(v@.subrange(0, n as int)[i] == v@[i]);
            }
        } else if prefix@.is_prefix_of(v@) {
            assert(v@.subrange(0, n as int) =~= prefix@);
        }
    }
    b
}

impl ResponseReader {
    /// A reader that has seen nothing yet, for a command whose plot goes to
    /// `expected_plot`.
    pub fn new(expected_plot: String) -> (r: Self)
        ensures
            r@ == initial_reader(expected_plot@),
    {
        let r = ResponseReader {
            seen_begin: false,
            output: Vec::new(),
            error: None,
            plot_path: None,
            expected_plot,
        };
        assert(views(r.output@) =~= Seq::empty());
        r
    }

    /// Takes one line of R's output, as read with its line end.
    pub fn feed(&mut self, line: &str) -> (step: LineStep)
        ensures
            (final(self)@, step) == next_state(old(self)@, line@),
    {
        let v = str_to_chars(line);
        let mut n = v.len();
        assert(v@.subrange(0, v@.len() as int) =~= v@);
        while n > 0 && (v[n - 1] == '\r' || v[n - 1] == '\n')
            invariant
                n <= v@.len(),
                strip_line_end(v@) == strip_line_end(v@.subrange(0, n as int)),
            decreases n,
        {
            assert(v@.subrange(0, n as int).drop_last() =~= v@.subrange(0, n - 1));
            n = n - 1;
        }
        let t_string = chars_to_string(v.as_slice(), 0, n);
        let t = str_to_chars(t_string.as_str());
        let ghost m = self@;
        if str_eq(t_string.as_str(), BEGIN_MARKER) {
            self.seen_begin = true;
            return LineStep::Continue;
        }
        if !self.seen_begin {
            return LineStep::Continue;
        }
        if str_eq(t_string.as_str(), END_MARKER) {
            return LineStep::Finished;
        }
        let mut error_prefix = ERROR_MARKER.to_owned();
        error_prefix.append(" ");
        let mut plot_prefix = PLOT_MARKER.to_owned();
        plot_prefix.append(" ");
        proof {
            reveal_strlit(" ");
            assert(" "@ =~= seq![' ']);
        }
        if starts_with_str(&t, error_prefix.as_str()) {
            let k = error_prefix.as_str().unicode_len();
            let rest = chars_to_string(t.as_slice(), k, t.len());
            assert(rest@ =~= t@.skip(k as int));
            self.error = Some(trim_str(rest.as_str()));
            return LineStep::Continue;
        }
        if starts_with_str(&t, plot_prefix.as_str()) {
            let k = plot_prefix.as_str().unicode_len();
            let rest = chars_to_string(t.as_slice(), k, t.len());
            assert(rest@ =~= t@.skip(k as int));
            if k < t.len() {
                self.plot_path = Some(rest);
            } else {
                self.plot_path = Some(self.expected_plot.clone());
            }
            return LineStep::Continue;
        }
        self.output.push(t_string);
        assert(views(self.output@) =~= m.output.push(t@));
        LineStep::Continue
    }

    /// The result of the response read so far.
    pub fn finish(self) -> (r: ExecutionResult)
        ensures
            r@ == finished(self@),
    {
        let joined = join_strings(self.output.as_slice(), "\n");
        proof {
            reveal_strlit("\n");
            assert("\n"@ =~= seq!['\n']);
        }
        ExecutionResult { output: trim_str(joined.as_str()), error: self.error, plot_path: self.plot_path }
    }
}


/// The state of a reader that has seen nothing yet.
pub open spec fn initial_reader(expected_plot: Seq<char>) -> ReaderModel {
    ReaderModel {
        seen_begin: false,
        output: Seq::empty(),
        error: None,
        plot_path: None,
        expected_plot,
    }
}

/// Feeds lines to a reader until one of them finishes the response; the
/// flag tells whether one did.
pub open spec fn read_lines(m: ReaderModel, lines: Seq<Seq<char>>) -> (ReaderModel, bool)
    decreases lines.len(),
{
    if lines.len() == 0 {
        (m, false)
    } else {
        let (next, step) = next_state(m, lines[0]);
        if step is Finished {
            (next, true)
        } else {
            read_lines(next, lines.drop_first())
        }
    }
}

proof fn lemma_skip_before_begin(m: ReaderModel, noise: Seq<Seq<char>>, rest: Seq<Seq<char>>)
    requires
        !m.seen_begin,
        forall|i: int| 0 <= i < noise.len() ==> strip_line_end(#[trigger] noise[i]) != BEGIN_MARKER@,
    ensures
        read_lines(m, noise + rest) == read_lines(m, rest),
    decreases noise.len(),
{
    if noise.len() > 0 {
        assert((noise + rest)[0] == noise[0]);
        assert((noise + rest).drop_first() =~= noise.drop_first() + rest);
        assert forall|i: int| 0 <= i < noise.drop_first().len() implies strip_line_end(
            #[trigger] noise.drop_first()[i],
        ) != BEGIN_MARKER@ by {
            assert(noise.drop_first()[i] == noise[i + 1]);
        }
        lemma_skip_before_begin(m, noise.drop_first(), rest);
    } else {
        assert(noise + rest =~= rest);
    }
}

/// A line of the reply body: read with any line end, and neither marker.
pub open spec fn is_body_line(l: Seq<char>) -> bool {
    &&& strip_line_end(l) != BEGIN_MARKER@
    &&& strip_line_end(l) != END_MARKER@
}

/// Whether a body line reports an R error.
pub open spec fn is_error_line(l: Seq<char>) -> bool {
    (ERROR_MARKER@ + seq![' ']).is_prefix_of(strip_line_end(l))
}

/// Whether a body line reports a plot.
pub open spec fn is_plot_line(l: Seq<char>) -> bool {
    !is_error_line(l) && (PLOT_MARKER@ + seq![' ']).is_prefix_of(strip_line_end(l))
}

/// The message of an error line.
pub open spec fn error_message(l: Seq<char>) -> Seq<char> {
    trim(strip_line_end(l).skip(ERROR_MARKER@.len() + 1int))
}

/// The plot path of a plot line: what follows the marker, or the expected
/// path when nothing does.
pub open spec fn plot_of(l: Seq<char>, expected_plot: Seq<char>) -> Seq<char> {
    let rest = strip_line_end(l).skip(PLOT_MARKER@.len() + 1int);
    if rest.len() > 0 {
        rest
    } else {
        expected_plot
    }
}

/// The output lines of a reply body: the lines that report neither an error
/// nor a plot, without their line ends.
pub open spec fn output_lines(lines: Seq<Seq<char>>) -> Seq<Seq<char>>
    decreases lines.len(),
{
    if lines.len() == 0 {
        Seq::empty()
    } else if is_error_line(lines.last()) || is_plot_line(lines.last()) {
        output_lines(lines.drop_last())
    } else {
        output_lines(lines.drop_last()).push(strip_line_end(lines.last()))
    }
}

/// The message of the last error line of a reply body.
pub open spec fn last_error(lines: Seq<Seq<char>>) -> Option<Seq<char>>
    decreases lines.len(),
{
    if lines.len() == 0 {
        None
    } else if is_error_line(lines.last()) {
        Some(error_message(lines.last()))
    } else {
        last_error(lines.drop_last())
    }
}

/// The plot of the last plot line of a reply body.
pub open spec fn last_plot(lines: Seq<Seq<char>>, expected_plot: Seq<char>) -> Option<Seq<char>>
    decreases lines.len(),
{
    if lines.len() == 0 {
        None
    } else if is_plot_line(lines.last()) {
        Some(plot_of(lines.last(), expected_plot))
    } else {
        last_plot(lines.drop_last(), expected_plot)
    }
}

/// The state after feeding all the lines, whatever steps they give.
pub open spec fn fold_lines(m: ReaderModel, lines: Seq<Seq<char>>) -> ReaderModel
    decreases lines.len(),
{
    if lines.len() == 0 {
        m
    } else {
        fold_lines(next_state(m, lines[0]).0, lines.drop_first())
    }
}

proof fn lemma_fold_push(m: ReaderModel, lines: Seq<Seq<char>>, x: Seq<char>)
    ensures
        fold_lines(m, lines.push(x)) == next_state(fold_lines(m, lines), x).0,
    decreases lines.len(),
{
    if lines.len() == 0 {
        assert(seq![x].drop_first() =~= Seq::<Seq<char>>::empty());
        assert(lines.push(x) =~= seq![x]);
        assert(fold_lines(next_state(m, x).0, Seq::<Seq<char>>::empty()) == next_state(m, x).0);
        assert(fold_lines(m, seq![x]) == fold_lines(
            next_state(m, x).0,
            seq![x].drop_first(),
        ));
    } else {
        assert(lines.push(x)[0] == lines[0]);
        assert(lines.push(x).drop_first() =~= lines.drop_first().push(x));
        lemma_fold_push(next_state(m, lines[0]).0, lines.drop_first(), x);
    }
}

proof fn lemma_markers_distinct()
    ensures
        BEGIN_MARKER@ != END_MARKER@,
        !(ERROR_MARKER@ + seq![' ']).is_prefix_of(BEGIN_MARKER@),
        !(ERROR_MARKER@ + seq![' ']).is_prefix_of(END_MARKER@),
        strip_line_end(BEGIN_MARKER@) == BEGIN_MARKER@,
        strip_line_end(END_MARKER@) == END_MARKER@,
{
    reveal_strlit("__RCONSOLE_BEGIN__");
    reveal_strlit("__RCONSOLE_END__");
    reveal_strlit("__RCONSOLE_ERROR__");
    assert((ERROR_MARKER@ + seq![' '])[12] != BEGIN_MARKER@[12]);
    assert((ERROR_MARKER@ + seq![' '])[12] != END_MARKER@[12]);
}

/// Inside a reply, the state after the body lines holds the output lines
/// after what was there, the last error and the last plot.
proof fn lemma_fold_body(m: ReaderModel, lines: Seq<Seq<char>>)
    requires
        m.seen_begin,
        forall|i: int| 0 <= i < lines.len() ==> is_body_line(#[trigger] lines[i]),
    ensures
        fold_lines(m, lines) == (ReaderModel {
            output: m.output + output_lines(lines),
            error: match last_error(lines) {
                Some(e) => Some(e),
                None => m.error,
            },
            plot_path: match last_plot(lines, m.expected_plot) {
                Some(p) => Some(p),
                None => m.plot_path,
            },
            ..m
        }),
    decreases lines.len(),
{
    if lines.len() == 0 {
        assert(m.output + output_lines(lines) =~= m.output);
    } else {
        let init = lines.drop_last();
        let x = lines.last();
        assert(lines =~= init.push(x));
        assert forall|i: int| 0 <= i < init.len() implies is_body_line(#[trigger] init[i]) by {
            assert(init[i] == lines[i]);
        }
        assert(is_body_line(lines[lines.len() - 1]));
        lemma_fold_body(m, init);
        lemma_fold_push(m, init, x);
        let f = fold_lines(m, init);
        assert(f.seen_begin && f.expected_plot == m.expected_plot);
        if !is_error_line(x) && !is_plot_line(x) {
            assert(m.output + output_lines(init).push(strip_line_end(x)) =~= (m.output
                + output_lines(init)).push(strip_line_end(x)));
        }
    }
}

/// R's framed reply reads back as what it frames: the reader skips the
/// lines before the begin marker and stops at the end marker; the output is
/// the lines that report neither an error nor a plot, joined by newlines
/// and trimmed; the error is the message of the last error line; the plot
/// is that of the last plot line.
pub proof fn lemma_framed_reply_reads_back(
    expected_plot: Seq<char>,
    noise: Seq<Seq<char>>,
    lines: Seq<Seq<char>>,
)
    requires
        forall|i: int| 0 <= i < noise.len() ==> strip_line_end(#[trigger] noise[i]) != BEGIN_MARKER@,
        forall|i: int| 0 <= i < lines.len() ==> is_body_line(#[trigger] lines[i]),
    ensures
        read_lines(
            initial_reader(expected_plot),
            noise + seq![BEGIN_MARKER@] + lines + seq![END_MARKER@],
        ).1,
        finished(
            read_lines(
                initial_reader(expected_plot),
                noise + seq![BEGIN_MARKER@] + lines + seq![END_MARKER@],
            ).0,
        ) == (ExecutionResultModel {
            output: trim(join(output_lines(lines), seq!['\n'])),
            error: last_error(lines),
            plot_path: last_plot(lines, expected_plot),
        }),
{
    lemma_markers_distinct();
    let m0 = initial_reader(expected_plot);
    let rest = seq![BEGIN_MARKER@] + lines + seq![END_MARKER@];
    assert(noise + seq![BEGIN_MARKER@] + lines + seq![END_MARKER@] =~= noise + rest);
    lemma_skip_before_begin(m0, noise, rest);
    let m1 = ReaderModel { seen_begin: true, ..m0 };
    assert(rest[0] == BEGIN_MARKER@);
    assert(next_state(m0, BEGIN_MARKER@) == (m1, LineStep::Continue));
    assert(rest.drop_first() =~= lines.push(END_MARKER@));
    lemma_read_body(m1, lines);
    lemma_fold_body(m1, lines);
    assert(m1.output + output_lines(lines) =~= output_lines(lines));
}

/// Feeding body lines and then the end marker finishes with the state that
/// the body lines lead to.
proof fn lemma_read_body(m: ReaderModel, lines: Seq<Seq<char>>)
    requires
        m.seen_begin,
        forall|i: int| 0 <= i < lines.len() ==> is_body_line(#[trigger] lines[i]),
    ensures
        read_lines(m, lines.push(END_MARKER@)) == (fold_lines(m, lines), true),
    decreases lines.len(),
{
    lemma_markers_distinct();
    if lines.len() > 0 {
        let l = lines[0];
        assert(is_body_line(lines[0]));
        assert(lines.push(END_MARKER@)[0] == l);
        assert(lines.push(END_MARKER@).drop_first() =~= lines.drop_first().push(END_MARKER@));
        let next = next_state(m, l);
        assert(next.1 == LineStep::Continue);
        assert(next.0.seen_begin);
        assert forall|i: int| 0 <= i < lines.drop_first().len() implies is_body_line(
            #[trigger] lines.drop_first()[i],
        ) by {
            assert(lines.drop_first()[i] == lines[i + 1]);
        }
        lemma_read_body(next.0, lines.drop_first());
    } else {
        assert(lines.push(END_MARKER@) =~= seq![END_MARKER@]);
        assert(seq![END_MARKER@].drop_first() =~= Seq::<Seq<char>>::empty());
        assert(next_state(m, END_MARKER@) == (m, LineStep::Finished));
    }
}

}
