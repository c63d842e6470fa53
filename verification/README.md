# ruvo

The logic of the Ruvo web framework and of its `cargo ruvo` / `cargo sova`
project tools, written in Verus: every function in `src/` carries a contract
that Verus proves, and the properties that relate several calls are stated as
`law_*` proof functions next to the code they speak of.

- `src/` — the verified library (see the module list in `src/lib.rs`).
- `tests/` — executable tests of the library on concrete values.
- `app/` — the command-line tools: argument parsing, file and process I/O,
  the dev-mode watcher and restarts, and the floating-point step of size and
  duration settings, around calls into the library.

A few calls reach outside code through small trusted wrappers, each with a
doc comment stating what is assumed: `String::push`, the system clock,
`char::is_uppercase`, `percent_encoding`'s decoder, `serde_urlencoded`'s
query parser, and `toml`'s parser and pretty printer (`Cargo.toml` edits are
made and proved on the parsed document; the printer turns the result back into
text).
