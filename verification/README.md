# zellij_quill

A Zellij plugin that exposes pane automation over `zellij pipe`: list panes,
send input, read, grep and wait on scrollback, run background commands, open
panes, mark scrollback positions, and control which token may touch which pane.

The plugin's logic is a library verified with Verus; the Zellij glue around it
is ordinary Rust.

## Layout

- `src/` — the verified library.
  - `plugin/` — the plugin state (`QuillPlugin`) and everything it does:
    `lifecycle.rs` (load, pipe messages, host events), `commands/` (one file
    per group of commands), `permissions.rs` (tokens, pane permissions and
    approval prompts), `jobs.rs` (waits, background commands and spawned
    panes that answer later), `pane.rs` and `state.rs`.
  - `host.rs` — the exchange with the host: what the plugin asks for
    (`HostRequest`), what it was told (`HostFacts`, `Event`) and what it has the
    host do (`Effect`).
  - `parsing.rs`, `flags.rs` — the command line, JSON payloads, durations,
    keys and flags.
  - `text.rs`, `table.rs`, `pattern.rs`, `util.rs`, `types.rs`, `response.rs`,
    `error.rs` — text, keyed tables, regular expressions (through the `regex`
    crate), values and answers.
- `app/` — the Zellij side: plugin registration, host calls, clap argument
  parsing, JSON, and the loop that serves the library's requests.
- `tests/` — tests of the library.

## How the library meets the host

Every entry point (`QuillPlugin::load`, `pipe`, `update`) is a function from
the plugin state and what the host has reported so far to either a request
for something more (`Step::Need`, such as a pane's scrollback or the answer to
an approval prompt) or the list of effects to perform (`Step::Done`). The app
answers each request into `HostFacts` and calls again; the library's contracts
state the outcome for every value the host could report.
