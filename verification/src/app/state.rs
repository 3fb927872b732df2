//! The layout of the `.rconsole` workspace of a project.

use vstd::prelude::*;

use crate::app::console::r_status;
use crate::codex::runner::CodexRunSummary;
use crate::path::{join_path, opt_view, path_join};
use crate::r::session::ExecutionResult;

verus! {

/// The directories and files of the `.rconsole` workspace.
#[derive(Debug, Clone)]
pub struct WorkspacePaths {
    pub root: String,
    pub artifacts_dir: String,
    pub logs_dir: String,
    pub session_file: String,
    pub app_log: String,
    pub r_log: String,
    pub codex_log: String,
    pub config_file: String,
}

/// The layout of the workspace of a project root.
pub open spec fn workspace_layout(project_root: Seq<char>, w: WorkspacePaths) -> bool {
    let root = path_join(project_root, ".rconsole"@);
    let logs = path_join(root, "logs"@);
    &&& w.root@ == root
    &&& w.artifacts_dir@ == path_join(root, "artifacts"@)
    &&& w.logs_dir@ == logs
    &&& w.session_file@ == path_join(root, "session.json"@)
    &&& w.app_log@ == path_join(logs, "app.log"@)
    &&& w.r_log@ == path_join(logs, "r.log"@)
    &&& w.codex_log@ == path_join(logs, "codex.log"@)
    &&& w.config_file@ == path_join(root, "config.toml"@)
}

impl WorkspacePaths {
    /// The workspace paths of a project root.
    pub fn under(project_root: &str) -> (w: Self)
        ensures
            workspace_layout(project_root@, w),
    {
        let root = join_path(project_root, ".rconsole");
        let artifacts_dir = join_path(root.as_str(), "artifacts");
        let logs_dir = join_path(root.as_str(), "logs");
        let session_file = join_path(root.as_str(), "session.json");
        let app_log = join_path(logs_dir.as_str(), "app.log");
        let r_log = join_path(logs_dir.as_str(), "r.log");
        let codex_log = join_path(logs_dir.as_str(), "codex.log");
        let config_file = join_path(root.as_str(), "config.toml");
        WorkspacePaths {
            root,
            artifacts_dir,
            logs_dir,
            session_file,
            app_log,
            r_log,
            codex_log,
            config_file,
        }
    }
}


/// What the console remembers between commands: the last R command and its
/// status, and the last Codex run.
#[derive(Debug, Clone)]
pub struct SessionRecord {
    pub last_r_command: Option<String>,
    pub last_r_status: Option<String>,
    pub last_codex_run: Option<CodexRunSummary>,
}

/// The status recorded for an R result: `error` when it raised one.
pub open spec fn status_of(result: ExecutionResult) -> Seq<char> {
    if result.error is Some {
        "error"@
    } else {
        "ok"@
    }
}

impl SessionRecord {
    /// A console that has run nothing yet.
    pub fn new() -> (r: Self)
        ensures
            r.last_r_command is None,
            r.last_r_status is None,
            r.last_codex_run is None,
    {
        SessionRecord { last_r_command: None, last_r_status: None, last_codex_run: None }
    }

    /// After R ran code for a command recorded as `recorded_command`.
    pub fn record_r_run(&mut self, recorded_command: String, result: &ExecutionResult)
        ensures
            final(self).last_r_command == Some(recorded_command),
            opt_view(final(self).last_r_status) == Some(status_of(*result)),
            final(self).last_codex_run == old(self).last_codex_run,
    {
        self.last_r_command = Some(recorded_command);
        self.last_r_status = Some(r_status(result).to_owned());
    }

    /// After a Codex run.
    pub fn record_codex_run(&mut self, summary: CodexRunSummary)
        ensures
            final(self).last_codex_run == Some(summary),
            final(self).last_r_command == old(self).last_r_command,
            final(self).last_r_status == old(self).last_r_status,
    {
        self.last_codex_run = Some(summary);
    }

    /// After `/reset-r`: the R record is cleared, the Codex run kept.
    pub fn reset_r(&mut self)
        ensures
            final(self).last_r_command is None,
            final(self).last_r_status is None,
            final(self).last_codex_run == old(self).last_codex_run,
    {
        self.last_r_command = None;
        self.last_r_status = None;
    }
}

}
