use rconsole::r::protocol::{BEGIN_MARKER, END_MARKER, ERROR_MARKER, PLOT_MARKER};
use rconsole::r::session::{escape_r_string, plot_path, wrap_command, LineStep, ResponseReader};

fn read(lines: &[String], expected_plot: &str) -> (rconsole::r::session::ExecutionResult, usize) {
    let mut reader = ResponseReader::new(expected_plot.to_string());
    let mut fed = 0;
    for line in lines {
        fed += 1;
        if reader.feed(line) == LineStep::Finished {
            break;
        }
    }
    (reader.finish(), fed)
}

#[test]
fn reads_framed_output() {
    let lines = vec![
        "leftover\n".to_string(),
        format!("{BEGIN_MARKER}\n"),
        "[1] 42\r\n".to_string(),
        "\n".to_string(),
        "  more  \n".to_string(),
        format!("{END_MARKER}\n"),
        "after\n".to_string(),
    ];
    let (result, fed) = read(&lines, "plot.png");
    assert_eq!(fed, 6);
    assert_eq!(result.output, "[1] 42\n\n  more");
    assert_eq!(result.error, None);
    assert_eq!(result.plot_path, None);
}

#[test]
fn surfaces_marked_errors_and_plots() {
    let lines = vec![
        format!("{BEGIN_MARKER}\n"),
        format!("{ERROR_MARKER} boom \n"),
        format!("{PLOT_MARKER} /tmp/p.png \n"),
        format!("{END_MARKER}\n"),
    ];
    let (result, _) = read(&lines, "expected.png");
    assert_eq!(result.error.as_deref(), Some("boom"));
    assert_eq!(result.plot_path.as_deref(), Some("/tmp/p.png "));
    assert_eq!(result.output, "");

    let lines = vec![
        format!("{BEGIN_MARKER}\n"),
        format!("{PLOT_MARKER} \n"),
        format!("{END_MARKER}\n"),
    ];
    let (result, _) = read(&lines, "expected.png");
    assert_eq!(result.plot_path.as_deref(), Some("expected.png"));
}

#[test]
fn ignores_markers_before_begin() {
    let lines = vec![
        format!("{END_MARKER}\n"),
        format!("{ERROR_MARKER} early\n"),
        format!("{BEGIN_MARKER}\n"),
        "x\n".to_string(),
        format!("{END_MARKER}\n"),
    ];
    let (result, fed) = read(&lines, "p");
    assert_eq!(fed, 5);
    assert_eq!(result.output, "x");
    assert_eq!(result.error, None);
}

#[test]
fn names_plots_and_escapes_paths() {
    assert_eq!(plot_path("/w/artifacts", 1), "/w/artifacts/plot-0001.png");
    assert_eq!(plot_path("art/", 12345), "art/plot-12345.png");
    assert_eq!(escape_r_string("C:\\it's"), "C:/it\\'s");
}

#[test]
fn wraps_commands() {
    let script = wrap_command("/w/cmd.R", "/w/it's.png");
    assert!(script.starts_with(&format!("cat('{BEGIN_MARKER}\\n')\n")));
    assert!(script.contains("source('/w/cmd.R', local = .GlobalEnv"));
    assert!(script.contains("file.remove('/w/it\\'s.png')"));
    assert!(script.contains(&format!("cat('{ERROR_MARKER}', conditionMessage(e), '\\n', sep = ' ')\n")));
    assert!(script.ends_with(&format!("cat('{END_MARKER}\\n')\nflush.console()\n")));
}

#[test]
fn reads_reply_with_errors_and_plots() {
    let lines = vec![
        "> noise\n".to_string(),
        format!("{BEGIN_MARKER}\r\n"),
        "first\n".to_string(),
        format!("{ERROR_MARKER} early \n"),
        format!("{PLOT_MARKER} /a.png\n"),
        "second\n".to_string(),
        format!("{ERROR_MARKER}   late\n"),
        format!("{PLOT_MARKER} \n"),
        format!("{END_MARKER}\n"),
    ];
    let (result, fed) = read(&lines, "expected.png");
    assert_eq!(fed, 9);
    assert_eq!(result.output, "first\nsecond");
    assert_eq!(result.error.as_deref(), Some("late"));
    assert_eq!(result.plot_path.as_deref(), Some("expected.png"));
}
