use rconsole::context::{
    build_codex_preamble, r_glimpse_contents, r_snapshot_contents, render_context_text,
    SessionContextPaths,
};
use rconsole::r::session::ExecutionResult;

#[test]
fn lays_out_session_files() {
    let paths = SessionContextPaths::under("/p/.rconsole");
    assert_eq!(paths.root, "/p/.rconsole/session");
    assert_eq!(paths.r_objects_json, "/p/.rconsole/session/r-objects.json");
    assert_eq!(paths.r_last_command_txt, "/p/.rconsole/session/r-last-command.txt");
    assert_eq!(paths.r_last_output_txt, "/p/.rconsole/session/r-last-output.txt");
    assert_eq!(paths.r_last_status_txt, "/p/.rconsole/session/r-last-status.txt");
    assert_eq!(paths.r_last_glimpse_txt, "/p/.rconsole/session/r-last-glimpse.txt");
}

#[test]
fn preamble_points_at_context_files() {
    let paths = SessionContextPaths::under("/w");
    let preamble = build_codex_preamble(&paths);
    assert!(preamble.contains("last R output"));
    assert!(preamble.contains("`/w/session/r-objects.json`"));
    assert!(preamble.ends_with("do not assume live access to the R process.\n"));
}

#[test]
fn snapshot_texts() {
    let result = ExecutionResult {
        output: "[1] 2".to_string(),
        error: None,
        plot_path: None,
    };
    let files = r_snapshot_contents(&["x".to_string()], Some("x <- 1 + 1"), Some("ok"), Some(&result));
    assert_eq!(files.snapshot.objects, vec!["x"]);
    assert_eq!(files.snapshot.last_command.as_deref(), Some("x <- 1 + 1"));
    assert_eq!(files.last_command, "x <- 1 + 1");
    assert_eq!(files.last_status, "ok");
    assert_eq!(files.last_output, "[1] 2");

    let failing = ExecutionResult {
        output: "partial".to_string(),
        error: Some("boom".to_string()),
        plot_path: Some("p.png".to_string()),
    };
    let files = r_snapshot_contents(&[], None, None, Some(&failing));
    assert_eq!(files.last_output, "partial\nerror: boom\nplot: p.png");
    assert_eq!(files.last_command, "");
    assert_eq!(files.snapshot.last_status, None);

    let quiet = ExecutionResult {
        output: String::new(),
        error: None,
        plot_path: Some("p.png".to_string()),
    };
    assert_eq!(r_snapshot_contents(&[], None, None, Some(&quiet)).last_output, "(no output)");
    assert_eq!(r_snapshot_contents(&[], None, None, None).last_output, "");
}

#[test]
fn glimpse_file_text() {
    assert_eq!(r_glimpse_contents("fit", "summary output"), "Expression: fit\n\nsummary output");
}

#[test]
fn renders_context() {
    let paths = SessionContextPaths::under("/w");
    let text = render_context_text(&paths, "  ", " x <- 1 + 1\n", "", "ok", "\n");
    assert_eq!(
        text,
        "R objects file: /w/session/r-objects.json\nLast R command: x <- 1 + 1\nLast R status: ok\nLast R output file: /w/session/r-last-output.txt\nLast R output:\n(none)\nLast R glimpse file: /w/session/r-last-glimpse.txt\nLast R glimpse:\n(none)\nObjects snapshot:\n(empty)"
    );
}
