//! Delegation of tasks to the Codex command-line tool.

pub mod detect;
pub mod runner;
