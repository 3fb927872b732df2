use rconsole::app::state::{SessionRecord, WorkspacePaths};
use rconsole::r::session::ExecutionResult;
use rconsole::chat::backend::{ChatBackend, PlaceholderBackend};
use rconsole::codex::detect::{binary_name, first_file};
use rconsole::codex::runner::{build_summary, codex_args, final_message_from, last_message_path};
use rconsole::config::root::{detect_project_root, AncestorProbe};
use rconsole::config::{
    default_artifacts_dir, default_chat_backend, default_chat_model, default_codex_binary,
    default_r_binary, Config,
};

#[test]
fn default_config() {
    let c = Config::default();
    assert_eq!(c.r_binary, "R");
    assert_eq!(c.codex_binary, "codex");
    assert!(c.project_root_markers.is_empty());
    assert_eq!(c.artifacts_dir, "artifacts");
    assert_eq!(c.chat_backend, "placeholder");
    assert_eq!(c.chat_model, "local-placeholder");
    assert_eq!(default_r_binary(), "R");
    assert_eq!(default_codex_binary(), "codex");
    assert_eq!(default_artifacts_dir(), "artifacts");
    assert_eq!(default_chat_backend(), "placeholder");
    assert_eq!(default_chat_model(), "local-placeholder");
}

fn probe(path: &str, has_git: bool, has_marker: &[bool]) -> AncestorProbe {
    AncestorProbe {
        path: path.to_string(),
        has_git,
        has_marker: has_marker.to_vec(),
    }
}

#[test]
fn git_root_wins() {
    let probes = vec![
        probe("/r/repo/src/bin", false, &[true]),
        probe("/r/repo/src", false, &[false]),
        probe("/r/repo", true, &[false]),
        probe("/r", true, &[false]),
        probe("/", false, &[false]),
    ];
    let markers = vec!["Cargo.toml".to_string()];
    assert_eq!(detect_project_root("/r/repo/src/bin", &markers, &probes), "/r/repo");
}

#[test]
fn marker_root_without_git() {
    let probes = vec![
        probe("/a/b/c", false, &[false, false]),
        probe("/a/b", false, &[false, true]),
        probe("/a", false, &[true, false]),
        probe("/", false, &[false, false]),
    ];
    let markers = vec!["x".to_string(), "y".to_string()];
    assert_eq!(detect_project_root("/a/b/c", &markers, &probes), "/a/b");
}

#[test]
fn falls_back_to_cwd() {
    let probes = vec![probe("/plain", false, &[]), probe("/", false, &[])];
    assert_eq!(detect_project_root("/plain", &[], &probes), "/plain");
    let marked = vec![probe("/plain", false, &[true]), probe("/", false, &[])];
    assert_eq!(detect_project_root("/plain", &[], &marked), "/plain");
}

#[test]
fn lays_out_workspace() {
    let w = WorkspacePaths::under("/p");
    assert_eq!(w.root, "/p/.rconsole");
    assert_eq!(w.artifacts_dir, "/p/.rconsole/artifacts");
    assert_eq!(w.logs_dir, "/p/.rconsole/logs");
    assert_eq!(w.session_file, "/p/.rconsole/session.json");
    assert_eq!(w.app_log, "/p/.rconsole/logs/app.log");
    assert_eq!(w.r_log, "/p/.rconsole/logs/r.log");
    assert_eq!(w.codex_log, "/p/.rconsole/logs/codex.log");
    assert_eq!(w.config_file, "/p/.rconsole/config.toml");
}

#[test]
fn codex_run_plumbing() {
    assert_eq!(binary_name(), "codex");
    assert_eq!(last_message_path("/w"), "/w/codex-last-message.txt");
    assert_eq!(
        codex_args("/proj", "/w/m.txt", "task"),
        vec!["exec", "--cd", "/proj", "--skip-git-repo-check", "--output-last-message", "/w/m.txt", "task"]
    );
    let summary = build_summary("test", false, Some(3), Some("done".to_string()), "codex.log".to_string());
    assert!(!summary.success);
    assert_eq!(summary.exit_code, Some(3));
    assert_eq!(summary.final_message.as_deref(), Some("done"));
    assert_eq!(summary.task, "test");
    assert_eq!(final_message_from("  done \n"), Some("done".to_string()));
    assert_eq!(final_message_from(" \n\t"), None);
}

#[test]
fn placeholder_answers() {
    assert_eq!(
        PlaceholderBackend.ask("explain coxph separation"),
        "v1 local backend: I can help explain, plan, or suggest next commands.\nPrompt: explain coxph separation"
    );
}

#[test]
fn records_session_state() {
    let mut record = SessionRecord::new();
    assert!(record.last_r_command.is_none() && record.last_r_status.is_none());
    let failing = ExecutionResult {
        output: String::new(),
        error: Some("boom".to_string()),
        plot_path: None,
    };
    record.record_r_run("stop('boom')".to_string(), &failing);
    assert_eq!(record.last_r_command.as_deref(), Some("stop('boom')"));
    assert_eq!(record.last_r_status.as_deref(), Some("error"));
    record.record_codex_run(build_summary("t", true, Some(0), None, "l".to_string()));
    let fine = ExecutionResult {
        output: "[1] 2".to_string(),
        error: None,
        plot_path: None,
    };
    record.record_r_run("glimpse(fit)".to_string(), &fine);
    assert_eq!(record.last_r_status.as_deref(), Some("ok"));
    assert!(record.last_codex_run.is_some());
    record.reset_r();
    assert!(record.last_r_command.is_none() && record.last_r_status.is_none());
    assert_eq!(record.last_codex_run.map(|s| s.task), Some("t".to_string()));
}

#[test]
fn picks_first_file_on_path() {
    assert_eq!(first_file(&[false, true, true]), Some(1));
    assert_eq!(first_file(&[true]), Some(0));
    assert_eq!(first_file(&[false, false]), None);
    assert_eq!(first_file(&[]), None);
}
