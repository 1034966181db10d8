# rustbox

Core logic of a sandbox runtime, verified with Verus: network policy
evaluation and firewall rules, the transparent proxy's request handling,
command-line parsing and output, agent wire framing, the daemon's sandbox and
command tables, storage layout and API addressing.

- `src/` — the verified library. Each public function states its result in
  `ensures` over spec functions; `src/laws.rs` states properties that span
  several functions. Calls into `ipnet`, `httparse`, `chrono`, `rcgen`, `serde_json` and a
  few std functions go through small trusted wrappers whose contracts are documented
  where they are declared.
- `tests/` — executable tests of the library.
- `app/` — the I/O around it: the `sandbox` CLI, the daemon's HTTP API, the
  guest agent's server, the proxy's sockets, the SQLite snapshot store and
  snapshot archives.

Two libraries of the runtime's design are replaced in `src/`:

- The command-line grammar is not declared with `clap`'s derive macros, which
  cannot be used in verified code; `src/args.rs` parses the same commands,
  options and defaults by hand, with help and usage errors, and states the
  outcome exactly.
- The daemon keeps its sandboxes and commands in verified tables
  (`SandboxTable`, `CommandTable` in `src/registry.rs`) behind a mutex instead
  of `dashmap` maps. Their contracts speak of the stored values themselves; a
  `DashMap` hands stored values out only through borrow guards, so every
  lookup would copy a sandbox whose strings and vectors cannot be shown equal
  to the stored one. The tables keep ids unique as their invariant, as a map
  does, and list in insertion order.
