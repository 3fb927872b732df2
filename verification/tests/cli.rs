use rconsole::app::commands::Command;
use rconsole::app::router::parse_input;
use rconsole::app::cli::{
    is_multiline_closer, is_multiline_opener, multiline_command, parse_cli, usage_text, CliAction,
    MultilineCode,
};

fn args(v: &[&str]) -> Vec<String> {
    v.iter().map(|s| s.to_string()).collect()
}

#[test]
fn reads_command_line() {
    assert_eq!(parse_cli(args(&[])), CliAction::StartRepl);
    assert_eq!(parse_cli(args(&["--help"])), CliAction::ShowHelp);
    assert_eq!(parse_cli(args(&["-h"])), CliAction::ShowHelp);
    assert_eq!(parse_cli(args(&["--version"])), CliAction::ShowVersion);
    assert_eq!(parse_cli(args(&["-V"])), CliAction::ShowVersion);
    assert_eq!(
        parse_cli(args(&["--command"])),
        CliAction::Error("missing value for --command".to_string())
    );
    assert_eq!(
        parse_cli(args(&["--command", "/r", "1+1"])),
        CliAction::RunCommand("/r 1+1".to_string())
    );
    assert_eq!(
        parse_cli(args(&["--help", "extra"])),
        CliAction::Error("unsupported arguments: --help extra".to_string())
    );
    assert_eq!(
        parse_cli(args(&["-x"])),
        CliAction::Error("unsupported arguments: -x".to_string())
    );
}

#[test]
fn recognises_multiline_r() {
    assert!(is_multiline_opener("/r \"\"\"\n"));
    assert!(is_multiline_opener("/r \"\"\"   "));
    assert!(!is_multiline_opener("  /r \"\"\"\n"));
    assert!(!is_multiline_opener("/r x"));
    assert!(is_multiline_closer("\"\"\"\r\n"));
    assert!(!is_multiline_closer("x\"\"\"\n"));
    assert_eq!(multiline_command("x <- 1\ny <- 2\nx + y\n"), "/r x <- 1\ny <- 2\nx + y");
    assert_eq!(multiline_command(""), "/r ");
}

#[test]
fn usage_names_version() {
    let text = usage_text("0.1.0");
    assert!(text.starts_with("rconsole 0.1.0\n\nUsage:\n  rconsole\n"));
    assert!(text.ends_with("rconsole --command \"/r 1+1\""));
}

#[test]
fn multiline_code_reaches_r_trimmed() {
    let line = multiline_command("\n  x <- 1\n  y <- x\n\n");
    assert_eq!(parse_input(&line), Ok(Command::R("x <- 1\n  y <- x".to_string())));
}

#[test]
fn collects_multiline_code() {
    let mut code = MultilineCode::new();
    assert!(!code.feed("x <- 1\n"));
    assert!(!code.feed("  y <- x   \n"));
    assert!(!code.feed("\n"));
    assert!(code.feed("\"\"\"  \n"));
    assert_eq!(code.command(), "/r x <- 1\n  y <- x");
    assert_eq!(
        parse_input(&code.command()),
        Ok(Command::R("x <- 1\n  y <- x".to_string()))
    );
    assert_eq!(MultilineCode::new().command(), "/r ");
}
