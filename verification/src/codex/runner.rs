//! One run of `codex exec`: its arguments, and the summary of its outcome.

use vstd::prelude::*;

use crate::path::{join_path, path_join};
use crate::text::{trim, trim_str};

verus! {

/// The outcome of one Codex task.
#[derive(Debug, Clone)]
pub struct CodexRunSummary {
    pub task: String,
    pub success: bool,
    pub exit_code: Option<i32>,
    pub final_message: Option<String>,
    pub log_path: String,
}

/// The summary of a Codex run that exited with `success` and `exit_code`.
pub fn build_summary(
    task: &str,
    success: bool,
    exit_code: Option<i32>,
    final_message: Option<String>,
    log_path: String,
) -> (s: CodexRunSummary)
    ensures
        s.task@ == task@,
        s.success == success,
        s.exit_code == exit_code,
        s.final_message == final_message,
        s.log_path == log_path,
{
    CodexRunSummary { task: task.to_owned(), success, exit_code, final_message, log_path }
}

/// The final message that Codex left in its last-message file: the text
/// trimmed, none when nothing but whitespace is left.
pub open spec fn final_message_of(content: Seq<char>) -> Option<Seq<char>> {
    if trim(content).len() == 0 {
        None
    } else {
        Some(trim(content))
    }
}

/// The final message in the text of the last-message file.
pub fn final_message_from(content: &str) -> (r: Option<String>)
    ensures
        match r {
            Some(m) => final_message_of(content@) == Some(m@),
            None => final_message_of(content@) is None,
        },
{
    let trimmed = trim_str(content);
    if trimmed.as_str().unicode_len() == 0 {
        None
    } else {
        Some(trimmed)
    }
}

/// Where Codex leaves its last message, under the workspace root.
pub fn last_message_path(workspace_root: &str) -> (r: String)
    ensures
        r@ == path_join(workspace_root@, "codex-last-message.txt"@),
{
    join_path(workspace_root, "codex-last-message.txt")
}

/// The arguments of `codex exec` for a task in a project.
pub open spec fn codex_exec_args(
    project_root: Seq<char>,
    last_message: Seq<char>,
    task: Seq<char>,
) -> Seq<Seq<char>> {
    seq![
        "exec"@,
        "--cd"@,
        project_root,
        "--skip-git-repo-check"@,
        "--output-last-message"@,
        last_message,
        task,
    ]
}

/// The arguments of `codex exec` for a task in a project.
pub fn codex_args(project_root: &str, last_message: &str, task: &str) -> (r: Vec<String>)
    ensures
        crate::text::views(r@) == codex_exec_args(project_root@, last_message@, task@),
{
    let mut r: Vec<String> = Vec::new();
    r.push("exec".to_owned());
    r.push("--cd".to_owned());
    r.push(project_root.to_owned());
    r.push("--skip-git-repo-check".to_owned());
    r.push("--output-last-message".to_owned());
    r.push(last_message.to_owned());
    r.push(task.to_owned());
    assert(crate::text::views(r@) =~= codex_exec_args(project_root@, last_message@, task@));
    r
}

}
