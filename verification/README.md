# LogicShell

A policy-driven command dispatch library with optional local-LLM assistance
and an interactive terminal UI, verified with Verus.

## Layout

- `src/` — the verified library.
  - `safety/` — the safety policy engine: deny and allow prefixes, scored
    high-risk patterns (compiled with the `regex` crate), the mode-dependent
    decision, and the laws the engine obeys (`safety/laws.rs`).
  - `config/` — the configuration schema and its defaults, the decoding of
    a parsed `.logicshell.toml` (parsed with the `toml` crate), semantic
    validation, and the discovery rules.
  - `audit.rs`, `dispatcher.rs`, `hooks.rs`, `shell.rs` — audit records, the
    decisions around spawning a process and running pre-exec hooks, and the
    façade's safety check that opens every dispatch.
  - `llm/` — system context, prompt composition, response parsing, the
    AI safety floor, and the Ollama reply classification.
  - `tui/` — the input line, output panel, history, key handling state
    machine and status bar of the terminal UI.
  - `text.rs` — character-sequence helpers shared by all of the above.
- `tests/` — behavioural tests run against the compiled library.
- `app/` — the host side: process spawning (tokio), the NDJSON audit sink,
  configuration file discovery, the Ollama HTTP client (reqwest), and the
  terminal (crossterm, ratatui).
