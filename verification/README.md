# poisecc

A compiler for a subset of C to x86-64 assembly, written in Verus. Every
stage of the library states what it computes in its contract, over
mathematical models of its inputs and outputs, and Verus proves the code
against those contracts.

## Layout

- `src/lexer` — the tokenizer: source characters to tokens.
- `src/parser` — a recursive-descent parser: tokens to the syntax tree.
- `src/semanal` — semantic passes: type checking and the symbol table,
  collection and checking of `switch` cases, and lowering of `for` loops.
- `src/poise` — generation of the three-address intermediate form.
- `src/codegen` — generation of assembly, stack-slot assignment and the
  rewriting of instructions x86-64 cannot encode.
- `src/emit` — the assembly text.
- `src/types.rs`, `src/namemap.rs`, `src/text.rs` — C types and the symbol
  table, a string-keyed map, and text helpers.
- `app/` — the command-line driver: runs `gcc` to preprocess and assemble,
  and the library in between.
- `tests/` — tests of each stage and of the whole pipeline.
