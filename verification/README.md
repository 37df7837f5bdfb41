# typedown

TypeDown is a small markup language, easily embeddable and extendable. This crate
holds its parser and the value model of its renderer, verified with Verus.

- `src/parser/`: the grammar of markup and of the embedded code language, written
  as functions of a model (`grammar.rs`, `block.rs`) beside the parsers that compute
  them (`markup.rs`, `block.rs`); `laws.rs` and `block_laws.rs` prove that every node
  lies within the part of the source its parser consumed and that a parse aborts only
  on an integer literal that overflows; `recovery.rs` and `block_recovery.rs` prove
  that each error recovered from is marked by an error node at its span.
- `src/node.rs`, `src/kind.rs`: the syntax tree; `src/ast.rs`: typed views of it.
- `src/scan.rs`, `src/chars.rs`, `src/terminal.rs`: character classes and terminals.
- `src/source.rs`, `src/error.rs`: sources and diagnostics.
- `src/render/`: types and values of the renderer, command signatures, the checking
  of the arguments of a call, and the builtin list and map commands.
- `app/`: a command line program that parses a file and reports its diagnostics.

The parsers step through the characters of a source; the spans of a parsed document
and of its diagnostics, and the length of a source, count bytes of its UTF-8 encoding
(`src/bytes.rs`).
