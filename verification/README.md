# validation_import_check

Proves that the TypeScript, Rust, Go and Gleam validation consumers depend on
and import only the public validation SDKs, and never reach the server-side
packages. The library is written in Verus. Every function in `src/` carries a
contract; Verus proves all of them except two small wrappers over std whose
contracts are trusted: `text::string_push` (`String::push`) and
`cli::debug_quote` (`format!("{:?}")`, whose result is only named).

Layout:

- `src/text.rs` — character-sequence utilities (`contains`, prefixes, Unicode
  white space, `trim`, `lines`, `compact`).
- `src/comments.rs` — blanking out `//` and `/* */` comments while keeping
  quoted text; proved length- and line-preserving and idempotent.
- `src/forbidden.rs` — rejection of the forbidden server packages.
- `src/table.rs` — the ordered dependency tables of the manifests.
- `src/manifest.rs` — what the checks read of `package.json`, `Cargo.toml`
  and `gleam.toml`.
- `src/imports.rs` — how each language's executable source is recognised as
  importing its SDK: keywords as whole words, white space allowed between the
  parts, the TypeScript specifier quoted exactly and the Rust crate name as a
  whole word, and no match that a quote closes right after it.
- `src/consumers.rs` — the four consumer checks; `go.mod` statements are
  compared as whole trimmed lines once a trailing `//` comment is cut off.
- `src/report.rs` — the audit and its evidence report.
- `src/files.rs` — where the consumers' files stand, which files or
  directories are refused (symbolic links, paths escaping the repository),
  and the order in which directory entries are visited.
- `src/cli.rs` — arguments, usage, and the program's final output and status.
- `app/main.rs` — the program: file-system reads, manifest parsing with
  `serde_json` and `toml`, report writing.

Run the program with `--root PATH` (the repository) and `--report PATH` (where
to write the `ores.validation-import-check/v1` evidence).
