//! The console's commands, their grammar, and the workspace layout.

pub mod cli;
pub mod commands;
pub mod console;
pub mod router;
pub mod state;
