//! The slash commands of the console.

use vstd::prelude::*;

verus! {

/// One slash command, with its argument where it takes one.
#[derive(Debug, Clone, PartialEq, Eq)]
pub enum Command {
    Ask(String),
    R(String),
    RGlimpse(String),
    Codex(String),
    Help,
    Quit,
    Pwd,
    Context,
    Objects,
    ResetR,
    History,
    Clear,
}

/// A command as a mathematical value: the argument as its characters.
pub enum CommandModel {
    Ask(Seq<char>),
    R(Seq<char>),
    RGlimpse(Seq<char>),
    Codex(Seq<char>),
    Help,
    Quit,
    Pwd,
    Context,
    Objects,
    ResetR,
    History,
    Clear,
}

impl View for Command {
    type V = CommandModel;

    open spec fn view(&self) -> CommandModel {
        match self {
            Command::Ask(s) => CommandModel::Ask(s@),
            Command::R(s) => CommandModel::R(s@),
            Command::RGlimpse(s) => CommandModel::RGlimpse(s@),
            Command::Codex(s) => CommandModel::Codex(s@),
            Command::Help => CommandModel::Help,
            Command::Quit => CommandModel::Quit,
            Command::Pwd => CommandModel::Pwd,
            Command::Context => CommandModel::Context,
            Command::Objects => CommandModel::Objects,
            Command::ResetR => CommandModel::ResetR,
            Command::History => CommandModel::History,
            Command::Clear => CommandModel::Clear,
        }
    }
}

/// The slash word that names a command.
pub open spec fn label_of(c: CommandModel) -> Seq<char> {
    match c {
        CommandModel::Ask(_) => "/ask"@,
        CommandModel::R(_) => "/r"@,
        CommandModel::RGlimpse(_) => "/r-glimpse"@,
        CommandModel::Codex(_) => "/codex"@,
        CommandModel::Help => "/help"@,
        CommandModel::Quit => "/quit"@,
        CommandModel::Pwd => "/pwd"@,
        CommandModel::Context => "/context"@,
        CommandModel::Objects => "/objects"@,
        CommandModel::ResetR => "/reset-r"@,
        CommandModel::History => "/history"@,
        CommandModel::Clear => "/clear"@,
    }
}

impl Command {
    /// The slash word that names this command.
    pub fn label(&self) -> (r: &'static str)
        ensures
            r@ == label_of(self@),
    {
        match self {
            Self::Ask(_) => "/ask",
            Self::R(_) => "/r",
            Self::RGlimpse(_) => "/r-glimpse",
            Self::Codex(_) => "/codex",
            Self::Help => "/help",
            Self::Quit => "/quit",
            Self::Pwd => "/pwd",
            Self::Context => "/context",
            Self::Objects => "/objects",
            Self::ResetR => "/reset-r",
            Self::History => "/history",
            Self::Clear => "/clear",
        }
    }
}

}
