//! The console's configuration and its defaults. Reading
//! `.rconsole/config.toml` into it is the program's part.

pub mod root;

use vstd::prelude::*;

verus! {

/// The settings of `.rconsole/config.toml`.
#[derive(Debug, Clone)]
pub struct Config {
    pub r_binary: String,
    pub codex_binary: String,
    pub project_root_markers: Vec<String>,
    pub artifacts_dir: String,
    pub chat_backend: String,
    pub chat_model: String,
}

impl Default for Config {
    fn default() -> (c: Self)
        ensures
            c.r_binary@ == "R"@,
            c.codex_binary@ == "codex"@,
            c.project_root_markers@.len() == 0,
            c.artifacts_dir@ == "artifacts"@,
            c.chat_backend@ == "placeholder"@,
            c.chat_model@ == "local-placeholder"@,
    {
        Config {
            r_binary: default_r_binary(),
            codex_binary: default_codex_binary(),
            project_root_markers: Vec::new(),
            artifacts_dir: default_artifacts_dir(),
            chat_backend: default_chat_backend(),
            chat_model: default_chat_model(),
        }
    }
}

/// The R program run when the configuration names none.
pub fn default_r_binary() -> (s: String)
    ensures
        s@ == "R"@,
{
    "R".to_owned()
}

/// The Codex program run when the configuration names none.
pub fn default_codex_binary() -> (s: String)
    ensures
        s@ == "codex"@,
{
    "codex".to_owned()
}

/// The artifacts directory when the configuration names none.
pub fn default_artifacts_dir() -> (s: String)
    ensures
        s@ == "artifacts"@,
{
    "artifacts".to_owned()
}

/// The chat backend when the configuration names none.
pub fn default_chat_backend() -> (s: String)
    ensures
        s@ == "placeholder"@,
{
    "placeholder".to_owned()
}

/// The chat model when the configuration names none.
pub fn default_chat_model() -> (s: String)
    ensures
        s@ == "local-placeholder"@,
{
    "local-placeholder".to_owned()
}

}
