//! The shared session context: the files under `.rconsole/session/` that
//! record the R session for Codex, and the texts written into them.

use vstd::prelude::*;

use crate::path::{join_path, opt_view, path_join};
use crate::r::session::{ExecutionResult, ExecutionResultModel};
use crate::text::{
    clone_strings, ends_with, join, join_strings, lemma_ends_of_concat, lemma_occurs_at_end,
    lemma_occurs_at_end3, lemma_occurs_at_end5, lemma_occurs_in_prefix, occurs, trim, trim_str, views,
};
use vstd::seq_lib::lemma_concat_associative;

verus! {

/// What `r-objects.json` records: the R objects, the last R command and its
/// status.
#[derive(Debug, Clone, PartialEq, Eq)]
pub struct RContextSnapshot {
    pub objects: Vec<String>,
    pub last_command: Option<String>,
    pub last_status: Option<String>,
}

/// The files of the shared session context.
#[derive(Debug, Clone)]
pub struct SessionContextPaths {
    pub root: String,
    pub r_objects_json: String,
    pub r_last_command_txt: String,
    pub r_last_output_txt: String,
    pub r_last_status_txt: String,
    pub r_last_glimpse_txt: String,
}

/// The layout of the session context under a workspace root.
pub open spec fn session_layout(workspace_root: Seq<char>, p: SessionContextPaths) -> bool {
    let root = path_join(workspace_root, "session"@);
    &&& p.root@ == root
    &&& p.r_objects_json@ == path_join(root, "r-objects.json"@)
    &&& p.r_last_command_txt@ == path_join(root, "r-last-command.txt"@)
    &&& p.r_last_output_txt@ == path_join(root, "r-last-output.txt"@)
    &&& p.r_last_status_txt@ == path_join(root, "r-last-status.txt"@)
    &&& p.r_last_glimpse_txt@ == path_join(root, "r-last-glimpse.txt"@)
}

impl SessionContextPaths {
    /// The session context files under `workspace_root`.
    pub fn under(workspace_root: &str) -> (p: Self)
        ensures
            session_layout(workspace_root@, p),
    {
        let root = join_path(workspace_root, "session");
        let r_objects_json = join_path(root.as_str(), "r-objects.json");
        let r_last_command_txt = join_path(root.as_str(), "r-last-command.txt");
        let r_last_output_txt = join_path(root.as_str(), "r-last-output.txt");
        let r_last_status_txt = join_path(root.as_str(), "r-last-status.txt");
        let r_last_glimpse_txt = join_path(root.as_str(), "r-last-glimpse.txt");
        SessionContextPaths {
            root,
            r_objects_json,
            r_last_command_txt,
            r_last_output_txt,
            r_last_status_txt,
            r_last_glimpse_txt,
        }
    }
}

/// The lines of `r-last-output.txt` for a result with output or an error.
pub open spec fn output_parts(v: ExecutionResultModel) -> Seq<Seq<char>> {
    (if v.output.len() > 0 {
        seq![v.output]
    } else {
        Seq::empty()
    }) + (match v.error {
        Some(e) => seq!["error: "@ + e],
        None => Seq::empty(),
    }) + (match v.plot_path {
        Some(p) => seq!["plot: "@ + p],
        None => Seq::empty(),
    })
}

/// What `r-last-output.txt` holds after a result, or after none.
pub open spec fn last_output_text(result: Option<ExecutionResultModel>) -> Seq<char> {
    match result {
        None => Seq::empty(),
        Some(v) => if v.output.len() == 0 && v.error is None {
            "(no output)"@
        } else {
            join(output_parts(v), seq!['\n'])
        },
    }
}

/// The contents of the session context files after an R command.
#[derive(Debug, Clone, PartialEq, Eq)]
pub struct RSnapshotFiles {
    pub snapshot: RContextSnapshot,
    pub last_command: String,
    pub last_status: String,
    pub last_output: String,
}

/// The text of an optional string, empty when there is none.
pub open spec fn or_empty(o: Option<Seq<char>>) -> Seq<char> {
    match o {
        Some(s) => s,
        None => Seq::empty(),
    }
}

fn owned_opt(o: Option<&str>) -> (r: Option<String>)
    ensures
        opt_view(r) == (match o {
            Some(s) => Some(s@),
            None => None::<Seq<char>>,
        }),
{
    match o {
        Some(s) => Some(s.to_owned()),
        None => None,
    }
}

/// What the session context files hold after an R command: the snapshot
/// for `r-objects.json`, and the texts of the last command, its status and
/// its output.
pub fn r_snapshot_contents(
    objects: &[String],
    last_command: Option<&str>,
    last_status: Option<&str>,
    result: Option<&ExecutionResult>,
) -> (f: RSnapshotFiles)
    ensures
        f.snapshot.objects@ == objects@,
        opt_view(f.snapshot.last_command) == (match last_command {
            Some(s) => Some(s@),
            None => None::<Seq<char>>,
        }),
        opt_view(f.snapshot.last_status) == (match last_status {
            Some(s) => Some(s@),
            None => None::<Seq<char>>,
        }),
        f.last_command@ == or_empty(opt_view(f.snapshot.last_command)),
        f.last_status@ == or_empty(opt_view(f.snapshot.last_status)),
        f.last_output@ == last_output_text(
            match result {
                Some(v) => Some(v@),
                None => None,
            },
        ),
{
    let objects = clone_strings(objects);
    let snapshot = RContextSnapshot {
        objects,
        last_command: owned_opt(last_command),
        last_status: owned_opt(last_status),
    };
    let last_command = match last_command {
        Some(s) => s.to_owned(),
        None => String::new(),
    };
    let last_status = match last_status {
        Some(s) => s.to_owned(),
        None => String::new(),
    };
    let last_output = match result {
        None => String::new(),
        Some(value) => {
            if value.output.as_str().unicode_len() == 0 && value.error.is_none() {
                "(no output)".to_owned()
            } else {
                let mut parts: Vec<String> = Vec::new();
                if value.output.as_str().unicode_len() > 0 {
                    parts.push(value.output.clone());
                }
                let ghost after_output = views(parts@);
                if let Some(error) = &value.error {
                    let mut line = "error: ".to_owned();
                    line.append(error.as_str());
                    parts.push(line);
                }
                let ghost after_error = views(parts@);
                if let Some(plot_path) = &value.plot_path {
                    let mut line = "plot: ".to_owned();
                    line.append(plot_path.as_str());
                    parts.push(line);
                }
                proof {
                    reveal_strlit("\n");
                    assert("\n"@ =~= seq!['\n']);
                    assert(views(parts@) =~= output_parts(value@));
                }
                join_strings(parts.as_slice(), "\n")
            }
        },
    };
    RSnapshotFiles { snapshot, last_command, last_status, last_output }
}

/// What `r-last-glimpse.txt` holds after a glimpse of `expression`.
pub open spec fn glimpse_text(expression: Seq<char>, output: Seq<char>) -> Seq<char> {
    "Expression: "@ + expression + "\n\n"@ + output
}

/// The text written to `r-last-glimpse.txt`.
pub fn r_glimpse_contents(expression: &str, output: &str) -> (r: String)
    ensures
        r@ == glimpse_text(expression@, output@),
{
    let mut r = "Expression: ".to_owned();
    r.append(expression);
    r.append("\n\n");
    r.append(output);
    r
}

/// The note that tells Codex where the shared R context is.
pub open spec fn codex_preamble(p: SessionContextPaths) -> Seq<char> {
    "Shared session context for this repo:\n- Read R context from `"@ + p.r_objects_json@
        + "`\n- Read last R command from `"@ + p.r_last_command_txt@
        + "`\n- Read last R output from `"@ + p.r_last_output_txt@
        + "`\n- Read last R glimpse from `"@ + p.r_last_glimpse_txt@
        + "`\nUse that context if it is relevant, but do not assume live access to the R process.\n"@
}

/// The note that tells Codex where the shared R context is.
pub fn build_codex_preamble(paths: &SessionContextPaths) -> (r: String)
    ensures
        r@ == codex_preamble(*paths),
{
    let mut r = "Shared session context for this repo:\n- Read R context from `".to_owned();
    r.append(paths.r_objects_json.as_str());
    r.append("`\n- Read last R command from `");
    r.append(paths.r_last_command_txt.as_str());
    r.append("`\n- Read last R output from `");
    r.append(paths.r_last_output_txt.as_str());
    r.append("`\n- Read last R glimpse from `");
    r.append(paths.r_last_glimpse_txt.as_str());
    r.append(
        "`\nUse that context if it is relevant, but do not assume live access to the R process.\n",
    );
    r
}

/// A file's text trimmed, or `placeholder` when nothing but whitespace is
/// left.
pub open spec fn shown_or(text: Seq<char>, placeholder: Seq<char>) -> Seq<char> {
    if trim(text).len() == 0 {
        placeholder
    } else {
        trim(text)
    }
}

fn trimmed_or(text: &str, placeholder: &str) -> (r: String)
    ensures
        r@ == shown_or(text@, placeholder@),
{
    let t = trim_str(text);
    if t.as_str().unicode_len() == 0 {
        placeholder.to_owned()
    } else {
        t
    }
}

/// What `/context` shows, given the texts of the context files.
pub open spec fn context_text(
    p: SessionContextPaths,
    objects: Seq<char>,
    last_command: Seq<char>,
    last_output: Seq<char>,
    last_status: Seq<char>,
    last_glimpse: Seq<char>,
) -> Seq<char> {
    "R objects file: "@ + p.r_objects_json@ + "\nLast R command: "@ + shown_or(
        last_command,
        "(none)"@,
    ) + "\nLast R status: "@ + shown_or(last_status, "(none)"@) + "\nLast R output file: "@
        + p.r_last_output_txt@ + "\nLast R output:\n"@ + shown_or(last_output, "(none)"@)
        + "\nLast R glimpse file: "@ + p.r_last_glimpse_txt@ + "\nLast R glimpse:\n"@
        + shown_or(last_glimpse, "(none)"@) + "\nObjects snapshot:\n"@ + shown_or(
        objects,
        "(empty)"@,
    )
}

/// What `/context` shows, given the texts read from the context files.
pub fn render_context_text(
    paths: &SessionContextPaths,
    objects: &str,
    last_command: &str,
    last_output: &str,
    last_status: &str,
    last_glimpse: &str,
) -> (r: String)
    ensures
        r@ == context_text(*paths, objects@, last_command@, last_output@, last_status@, last_glimpse@),
{
    let mut r = "R objects file: ".to_owned();
    r.append(paths.r_objects_json.as_str());
    r.append("\nLast R command: ");
    r.append(trimmed_or(last_command, "(none)").as_str());
    r.append("\nLast R status: ");
    r.append(trimmed_or(last_status, "(none)").as_str());
    r.append("\nLast R output file: ");
    r.append(paths.r_last_output_txt.as_str());
    r.append("\nLast R output:\n");
    r.append(trimmed_or(last_output, "(none)").as_str());
    r.append("\nLast R glimpse file: ");
    r.append(paths.r_last_glimpse_txt.as_str());
    r.append("\nLast R glimpse:\n");
    r.append(trimmed_or(last_glimpse, "(none)").as_str());
    r.append("\nObjects snapshot:\n");
    r.append(trimmed_or(objects, "(empty)").as_str());
    r
}

/// Each line of `/context` shows the file that its heading names: the
/// objects file, then the last command, the last status, the output file,
/// the last output, the glimpse file, the last glimpse and the objects
/// snapshot, each trimmed, with `(none)` (or `(empty)` for the objects) in
/// place of a text that is blank.
pub proof fn law_context_sections_show_their_files(
    p: SessionContextPaths,
    objects: Seq<char>,
    last_command: Seq<char>,
    last_output: Seq<char>,
    last_status: Seq<char>,
    last_glimpse: Seq<char>,
)
    ensures
        ("R objects file: "@ + p.r_objects_json@ + "\nLast R command: "@).is_prefix_of(
            context_text(p, objects, last_command, last_output, last_status, last_glimpse),
        ),
        occurs(
            "\nLast R command: "@ + (if trim(last_command).len() == 0 {
                "(none)"@
            } else {
                trim(last_command)
            }) + "\nLast R status: "@,
            context_text(p, objects, last_command, last_output, last_status, last_glimpse),
        ),
        occurs(
            "\nLast R status: "@ + (if trim(last_status).len() == 0 {
                "(none)"@
            } else {
                trim(last_status)
            }) + "\nLast R output file: "@ + p.r_last_output_txt@ + "\nLast R output:\n"@,
            context_text(p, objects, last_command, last_output, last_status, last_glimpse),
        ),
        occurs(
            "\nLast R output:\n"@ + (if trim(last_output).len() == 0 {
                "(none)"@
            } else {
                trim(last_output)
            }) + "\nLast R glimpse file: "@ + p.r_last_glimpse_txt@ + "\nLast R glimpse:\n"@,
            context_text(p, objects, last_command, last_output, last_status, last_glimpse),
        ),
        occurs(
            "\nLast R glimpse:\n"@ + (if trim(last_glimpse).len() == 0 {
                "(none)"@
            } else {
                trim(last_glimpse)
            }) + "\nObjects snapshot:\n"@,
            context_text(p, objects, last_command, last_output, last_status, last_glimpse),
        ),
        ends_with(
            context_text(p, objects, last_command, last_output, last_status, last_glimpse),
            "\nObjects snapshot:\n"@ + (if trim(objects).len() == 0 {
                "(empty)"@
            } else {
                trim(objects)
            }),
        ),
{
    let s = context_text(p, objects, last_command, last_output, last_status, last_glimpse);
    let t1 = "R objects file: "@;
    let t2 = p.r_objects_json@;
    let t3 = "\nLast R command: "@;
    let t4 = shown_or(last_command, "(none)"@);
    let t5 = "\nLast R status: "@;
    let t6 = shown_or(last_status, "(none)"@);
    let t7 = "\nLast R output file: "@;
    let t8 = p.r_last_output_txt@;
    let t9 = "\nLast R output:\n"@;
    let t10 = shown_or(last_output, "(none)"@);
    let t11 = "\nLast R glimpse file: "@;
    let t12 = p.r_last_glimpse_txt@;
    let t13 = "\nLast R glimpse:\n"@;
    let t14 = shown_or(last_glimpse, "(none)"@);
    let t15 = "\nObjects snapshot:\n"@;
    let t16 = shown_or(objects, "(empty)"@);
    let s2 = t1 + t2;
    let s3 = s2 + t3;
    let s5 = s3 + t4 + t5;
    let s9 = s5 + t6 + t7 + t8 + t9;
    let s13 = s9 + t10 + t11 + t12 + t13;
    let s15 = s13 + t14 + t15;
    assert(s == s15 + t16);
    assert(s3.is_prefix_of(s));
    lemma_occurs_at_end3(s2, t3, t4, t5);
    assert(s5.is_prefix_of(s));
    lemma_occurs_in_prefix(t3 + t4 + t5, s5, s);
    lemma_occurs_at_end5(s3 + t4, t5, t6, t7, t8, t9);
    assert(s9.is_prefix_of(s));
    lemma_occurs_in_prefix(t5 + t6 + t7 + t8 + t9, s9, s);
    lemma_occurs_at_end5(s5 + t6 + t7 + t8, t9, t10, t11, t12, t13);
    assert(s13.is_prefix_of(s));
    lemma_occurs_in_prefix(t9 + t10 + t11 + t12 + t13, s13, s);
    lemma_occurs_at_end3(s9 + t10 + t11 + t12, t13, t14, t15);
    assert(s15.is_prefix_of(s));
    lemma_occurs_in_prefix(t13 + t14 + t15, s15, s);
    lemma_occurs_at_end(s13 + t14, t15 + t16);
    lemma_concat_associative(s13 + t14, t15, t16);
    lemma_ends_of_concat(s13 + t14, t15 + t16);
}

}
