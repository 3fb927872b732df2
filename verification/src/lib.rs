//! rconsole: one transcript for natural-language help, a persistent R
//! session and Codex delegation. This crate holds the verified logic: the
//! command grammar, the response protocol of the R session, the layout of
//! the workspace files and the text that the console shows or writes.

pub mod app;
pub mod chat;
pub mod codex;
pub mod config;
pub mod context;
pub mod path;
pub mod r;
pub mod text;
pub mod transcript;
