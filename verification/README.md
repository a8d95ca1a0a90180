# negentropy

A structural checker that reduces semantic entropy in a codebase. It parses each
source with a grammar of its own (no compiler of the target language), lifts the
concrete tree into a uniform structure tree, and runs language-agnostic laws on
it: single word, block depth <= 3, path depth <= 3, comments denied by default,
and boundaries declared in `negentropy.toml`, against a living vocabulary kept in
`vocabulary.toml`.

The library is written in Verus and its behaviour is proved against contracts.

## Layout

- `src/peg.rs` — parsing expressions over bytes, their mathematical form and the
  byte matcher.
- `src/lex.rs` — the longest-match lexer (earliest rule wins ties).
- `src/parse.rs` — the token parser that builds the concrete tree, with recovery
  of unreadable regions as `loose` nodes. Rule references may nest as deep as
  the input asks (the bound that keeps every parse defined is beyond any call stack).
- `src/rust.rs` — the structural brace grammar used for Rust and TypeScript. It is a
  table of rules written out in the source (once as a specification, once as the
  code that builds it, proved equal), not a g4 file loaded at run time.
- `src/grammar.rs` — sources, kinds and the concrete tree; markdown headings;
  dispatch by file kind.
- `src/kernel.rs` — the structure tree, the laws and their findings, path depth.
- `src/config.rs` — the law file and the vocabulary.
- `src/report.rs` — ordering of findings, printed lines and the exit decision.
- `src/shape.rs` — the structure tree as JSON.
- `src/files.rs`, `src/text.rs` — which files are read and their paths relative to the
  root; small string helpers.
- `src/sections.rs` — what a markdown tree is: one section per heading line.
- `src/laws.rs` — properties of the library as a whole, proved.
- `app/` — the command line: walking the directories, reading files, TOML, printing.
