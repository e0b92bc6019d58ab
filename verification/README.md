# sutra

Sutra is a small Lisp-like scripting language for narrative game state. This
crate holds its front end, written in Verus and verified:

- `src/lexer.rs`, `src/parser.rs`: the reader, from source text to syntax
  trees, with byte spans and exact parse errors.
- `src/macros.rs`, `src/expander.rs`, `src/std_macros.rs`, `src/loader.rs`,
  `src/registry.rs`, `src/pipeline.rs`, `src/engine.rs`: macro definitions,
  the standard macros, the traced macro expander and the expansion of a whole
  program.
- `src/world.rs`: the world-state tree with its get/set/delete laws.
- `src/arity.rs`, `src/errors.rs`, `src/diagnostics.rs`: argument-count
  checks, error values and the source snippets drawn under an error.
- `src/discovery.rs`, `src/summary.rs`: tests written in Sutra, their
  registration and the count of their outcomes.
- `src/grammar.rs`: checks of the grammar file's rules.

`app/main.rs` is the `sutra` command line around the library: it reads
files, prints expansions, traces and listings, and discovers test files.
The library decides each step of evaluation (`src/evaluator.rs`); the
command line runs the atoms, which compute with floating-point numbers.
