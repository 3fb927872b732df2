use rconsole::app::commands::Command;
use rconsole::app::router::{parse_input, ParseError};

#[test]
fn parses_ask() {
    assert_eq!(
        parse_input("/ask hello"),
        Ok(Command::Ask("hello".to_string()))
    );
}

#[test]
fn parses_r() {
    assert_eq!(parse_input("/r 1+1"), Ok(Command::R("1+1".to_string())));
}

#[test]
fn parses_codex() {
    assert_eq!(
        parse_input("/codex fix README"),
        Ok(Command::Codex("fix README".to_string()))
    );
}

#[test]
fn parses_r_glimpse() {
    assert_eq!(
        parse_input("/r-glimpse fit"),
        Ok(Command::RGlimpse("fit".to_string()))
    );
}

#[test]
fn parses_context() {
    assert_eq!(parse_input("/context"), Ok(Command::Context));
}

#[test]
fn rejects_empty_input() {
    assert_eq!(parse_input("   "), Err(ParseError::Empty));
}

#[test]
fn rejects_unknown_command() {
    assert_eq!(
        parse_input("/nope"),
        Err(ParseError::UnknownCommand("/nope".to_string()))
    );
}

#[test]
fn rejects_text_without_slash() {
    assert_eq!(
        parse_input("  hello there \n"),
        Err(ParseError::UnknownCommand("hello there".to_string()))
    );
}

#[test]
fn reports_missing_argument() {
    assert_eq!(parse_input("/ask"), Err(ParseError::MissingArgument("/ask")));
    assert_eq!(parse_input("/r    "), Err(ParseError::MissingArgument("/r")));
    assert_eq!(
        parse_input("/r-glimpse\t"),
        Err(ParseError::MissingArgument("/r-glimpse"))
    );
    assert_eq!(parse_input("/codex"), Err(ParseError::MissingArgument("/codex")));
}

#[test]
fn argument_is_trimmed_and_keeps_inner_spaces() {
    assert_eq!(
        parse_input("  /ask    what   is  this \t "),
        Ok(Command::Ask("what   is  this".to_string()))
    );
    assert_eq!(
        parse_input("/r\tx <- 1"),
        Ok(Command::R("x <- 1".to_string()))
    );
}

#[test]
fn exit_is_quit() {
    assert_eq!(parse_input("/exit"), Ok(Command::Quit));
    assert_eq!(parse_input("/quit"), Ok(Command::Quit));
}

#[test]
fn parses_every_plain_command() {
    assert_eq!(parse_input("/help"), Ok(Command::Help));
    assert_eq!(parse_input("/pwd"), Ok(Command::Pwd));
    assert_eq!(parse_input("/objects"), Ok(Command::Objects));
    assert_eq!(parse_input("/reset-r"), Ok(Command::ResetR));
    assert_eq!(parse_input("/history"), Ok(Command::History));
    assert_eq!(parse_input("/clear"), Ok(Command::Clear));
}

#[test]
fn plain_command_ignores_trailing_words() {
    assert_eq!(parse_input("/help me please"), Ok(Command::Help));
}

#[test]
fn unknown_command_reports_only_the_word() {
    assert_eq!(
        parse_input("/asking something"),
        Err(ParseError::UnknownCommand("/asking".to_string()))
    );
}

#[test]
fn unicode_whitespace_separates() {
    assert_eq!(
        parse_input("\u{3000}/ask\u{00A0}héllo wörld\u{2003}"),
        Ok(Command::Ask("héllo wörld".to_string()))
    );
}

#[test]
fn labels_parse_back() {
    let commands = vec![
        Command::Ask("a b".to_string()),
        Command::R("x".to_string()),
        Command::RGlimpse("fit".to_string()),
        Command::Codex("task".to_string()),
        Command::Help,
        Command::Quit,
        Command::Pwd,
        Command::Context,
        Command::Objects,
        Command::ResetR,
        Command::History,
        Command::Clear,
    ];
    for command in commands {
        let line = match &command {
            Command::Ask(a) | Command::R(a) | Command::RGlimpse(a) | Command::Codex(a) => {
                format!("{} {}", command.label(), a)
            }
            _ => command.label().to_string(),
        };
        assert_eq!(parse_input(&line), Ok(command.clone()));
    }
}

#[test]
fn labels_are_the_slash_words() {
    assert_eq!(Command::Ask(String::new()).label(), "/ask");
    assert_eq!(Command::RGlimpse(String::new()).label(), "/r-glimpse");
    assert_eq!(Command::ResetR.label(), "/reset-r");
    assert_eq!(Command::Quit.label(), "/quit");
}
