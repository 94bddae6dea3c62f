# starlark_completion

Completion for Starlark sources, as a language server offers it: the members of a loaded struct
behind a dot, the symbols in sight, the names that a `load` can take, the parameters of a function
that is called, and what can stand in a string.

- `src/` is the library. Its functions are verified with Verus against their contracts, and the
  public proof functions state what holds across functions. Not verified but believed are the
  wrappers in `src/docs.rs` and `src/syntax.rs`, which call the `starlark` and `starlark_syntax`
  crates: each says what it claims of its call.
- `tests/` runs the library on concrete sources.
- `app/` turns the library's values into those of the language server protocol, and asks the host
  of a server for what needs a disk or other documents.
