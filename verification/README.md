# rconsole

A console that keeps one transcript for `/ask`, a persistent R session
(`/r`, `/r-glimpse`, `/objects`) and Codex delegation (`/codex`).

- `src/` is the library, verified with Verus: the grammar of console lines
  (`app::router`), the command line and multi-line R input (`app::cli`), the
  texts the console shows (`app::console`), the workspace and session-context
  layout (`app::state`, `context`), the R response protocol and the wrapper
  script of each R command (`r`), the project-root rule (`config::root`), and
  the character-level text utilities they rest on (`text`, `path`).
- `app/` is the program: terminal I/O, the R and Codex subprocesses, the file
  system, and reading `config.toml` / writing `r-objects.json` with serde.
- `tests/` holds the tests of the library.

Paths are handled as text with Unix separators.
