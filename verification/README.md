# syn (verified core)

Parsing of Rust source text into a syntax tree, written in Verus.

- `src/lexer.rs` — breaking text into tokens with `proc_macro2`, and
  flattening its token trees into a buffer of `Token`s (`Open`/`Close`
  entries around every group).
- `src/buffer.rs` — finding where a group ends in the buffer.
- `src/parse.rs` — the `Parse` trait and reading a node off a whole buffer.
- `src/attr.rs`, `src/item.rs`, `src/file.rs` — attributes, items (kept as
  verbatim tokens after their head is checked: an item keyword with the
  name or tokens it calls for, or a macro path with `!`; `const`, `static`, `type` and `use` items end at their
  top-level `;`, other items at their top-level `;` or `{ ... }` body) and
  files.
- `src/source.rs` — the byte order mark and shebang line of a file's text.
- `src/lib.rs` — `parse2`, `parse_str`, `parse_file`.
- `src/laws.rs` — properties that span several functions.
- `app/lib.rs` — `parse`, for the compiler's own token streams.

The lexing contracts hold for `proc_macro2` built without its `proc-macro`
feature, as `Cargo.toml` asks. Cargo unifies features across a build: if
another crate of the same build enables that feature (for instance `quote`
with its default features), `proc_macro2` lexes with the compiler's lexer
inside procedural macros, where it may give other results or panic, and the
contracts are then not known to hold.
