use rconsole::app::commands::Command;
use rconsole::app::console::{
    build_r_glimpse_code, codex_report, codex_task, escape_r_text, glimpse_label, help_text,
    parse_error_message, parse_r_objects, plan_command, r_result_entries, r_status, user_entry,
    CommandPlan,
};
use rconsole::app::router::ParseError;
use rconsole::codex::runner::build_summary;
use rconsole::r::session::ExecutionResult;
use rconsole::transcript::TranscriptKind;

#[test]
fn parses_r_object_listing() {
    assert_eq!(parse_r_objects("[1] \"fit\" \"x\"   \"y\""), vec!["fit", "x", "y"]);
    assert_eq!(parse_r_objects("character(0)"), Vec::<String>::new());
    assert_eq!(parse_r_objects(""), Vec::<String>::new());
    assert_eq!(parse_r_objects("[1] \"unterminated"), vec!["unterminated"]);
    assert_eq!(
        parse_r_objects("[1] \"a\" \"b\"\n[3] \"c\""),
        vec!["a", "b", "c"]
    );
}

#[test]
fn escapes_r_text() {
    assert_eq!(escape_r_text("a'b"), "a\\'b");
    assert_eq!(escape_r_text("c:\\dir"), "c:\\\\dir");
    assert_eq!(escape_r_text("\\'"), "\\\\\\'");
    assert_eq!(escape_r_text("plain"), "plain");
}

/// Reads a single-quoted R string body the way R does for `\\` and `\'`.
fn r_read(text: &str) -> String {
    let mut out = String::new();
    let mut chars = text.chars().peekable();
    while let Some(c) = chars.next() {
        if c == '\\' && matches!(chars.peek(), Some('\\') | Some('\'')) {
            out.push(chars.next().unwrap());
        } else {
            out.push(c);
        }
    }
    out
}

#[test]
fn escaped_text_reads_back() {
    for s in ["", "fit", "a'b", "x\\y", "\\'", "''\\\\", "names(df)['col']"] {
        assert_eq!(r_read(&escape_r_text(s)), s);
    }
}

#[test]
fn glimpse_code_embeds_escaped_expression() {
    let code = build_r_glimpse_code("df['x']");
    assert!(code.starts_with("rconsole_glimpse_value <- eval(parse(text = 'df[\\'x\\']'), envir = .GlobalEnv)\n"));
    assert!(code.contains("cat('df[\\'x\\']\\n')\n"));
    assert!(code.ends_with("rm(rconsole_glimpse_value, envir = .GlobalEnv)\n"));
    assert!(code.contains("print(utils::head(names(rconsole_glimpse_value), 50))\n"));
}

#[test]
fn explains_parse_errors() {
    assert_eq!(parse_error_message(&ParseError::Empty), None);
    assert_eq!(
        parse_error_message(&ParseError::UnknownCommand("/nope".to_string())),
        Some("unknown command: /nope".to_string())
    );
    assert_eq!(
        parse_error_message(&ParseError::MissingArgument("/r")),
        Some("missing argument for /r".to_string())
    );
}

#[test]
fn records_user_commands() {
    let e = user_entry(&Command::Codex("fix README".to_string()));
    assert_eq!(e.label, "[user:/codex]");
    assert_eq!(e.kind, TranscriptKind::User);
    assert_eq!(e.content, "fix README");
    let e = user_entry(&Command::History);
    assert_eq!(e.label, "[user:/history]");
    assert_eq!(e.content, "");
}

#[test]
fn help_lists_commands() {
    assert!(help_text().starts_with("/ask <text>\n/r <code>\n"));
    assert!(help_text().ends_with("/clear\n/quit"));
}

fn result(output: &str, error: Option<&str>, plot: Option<&str>) -> ExecutionResult {
    ExecutionResult {
        output: output.to_string(),
        error: error.map(str::to_string),
        plot_path: plot.map(str::to_string),
    }
}

#[test]
fn reports_r_status_and_labels() {
    assert_eq!(r_status(&result("", Some("boom"), None)), "error");
    assert_eq!(r_status(&result("[1] 2", None, None)), "ok");
    assert_eq!(glimpse_label("fit"), "glimpse(fit)");
    assert_eq!(codex_task("ctx", "do it"), "ctx\nUser task:\ndo it");
}

#[test]
fn renders_r_results() {
    let lines: Vec<String> = r_result_entries(&result("[1] 2", Some("boom"), Some("p.png")))
        .iter()
        .map(|e| e.line())
        .collect();
    assert_eq!(lines, vec!["[R] [1] 2", "[R] error: boom", "[R] plot: p.png"]);
    let lines: Vec<String> = r_result_entries(&result("", None, None))
        .iter()
        .map(|e| e.line())
        .collect();
    assert_eq!(lines, vec!["[R] (no output)"]);
    let lines: Vec<String> = r_result_entries(&result("", None, Some("p.png")))
        .iter()
        .map(|e| e.line())
        .collect();
    assert_eq!(lines, vec!["[R] plot: p.png"]);
}

#[test]
fn reports_codex_runs() {
    let failed = build_summary("t", false, Some(3), None, "codex.log".to_string());
    let lines: Vec<String> = codex_report(&failed).iter().map(|e| e.line()).collect();
    assert_eq!(lines, vec!["[Codex] task failed with exit code Some(3); full log: codex.log"]);

    let killed = build_summary("t", false, None, Some("partial".to_string()), "l".to_string());
    let lines: Vec<String> = codex_report(&killed).iter().map(|e| e.line()).collect();
    assert_eq!(
        lines,
        vec!["[Codex] partial", "[Codex] task failed with exit code None; full log: l"]
    );

    let negative = build_summary("t", false, Some(-2), None, "l".to_string());
    assert_eq!(
        codex_report(&negative)[0].content,
        "task failed with exit code Some(-2); full log: l"
    );

    let done = build_summary("t", true, Some(0), None, "l".to_string());
    let entries = codex_report(&done);
    assert_eq!(entries[0].line(), "[Codex] completed with no final message; see Codex log for details");
    assert_eq!(entries[1].line(), "[system] Codex log: l");
    assert_eq!(entries[1].kind, TranscriptKind::System);
}

#[test]
fn plans_commands() {
    assert_eq!(plan_command(Command::Help), CommandPlan::ShowHelp);
    assert_eq!(plan_command(Command::Quit), CommandPlan::Quit);
    assert_eq!(plan_command(Command::Objects), CommandPlan::ListObjects);
    assert_eq!(
        plan_command(Command::R("1+1".to_string())),
        CommandPlan::RunR {
            code: "1+1".to_string(),
            recorded_command: "1+1".to_string(),
            glimpse_of: None
        }
    );
    assert_eq!(
        plan_command(Command::RGlimpse("fit".to_string())),
        CommandPlan::RunR {
            code: build_r_glimpse_code("fit"),
            recorded_command: "glimpse(fit)".to_string(),
            glimpse_of: Some("fit".to_string())
        }
    );
    assert_eq!(
        plan_command(Command::Ask("hi".to_string())),
        CommandPlan::Answer(
            "v1 local backend: I can help explain, plan, or suggest next commands.\nPrompt: hi".to_string()
        )
    );
    assert_eq!(
        plan_command(Command::Codex("fix".to_string())),
        CommandPlan::DelegateToCodex("fix".to_string())
    );
}
