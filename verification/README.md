# sekirei

The front end of the sekirei compiler (lexer, parser, semantic analyzer, LLVM IR
generator) and the decisions of its command-line tools, written in Verus with their
behaviour stated in contracts and proved.

Layout:

- `src/text.rs`, `src/token.rs`: characters, numerals, tokens and their printed forms.
- `src/lexer.rs`: source text to tokens, with indentation as Indent/Dedent tokens; the
  specification is a step function iterated to the end of the text.
- `src/ast.rs`, `src/parse_spec.rs`, `src/parser.rs` (and `src/parser/`): the syntax tree,
  the grammar as spec functions over token positions, and the recursive-descent parser
  proved to follow it.
- `src/sema_spec.rs`, `src/sema.rs` (and `src/sema/`), `src/sema_laws.rs`: the type rules as
  a state-passing specification, the analyzer proved against it, and what checking does to
  the analyzer's scopes.
- `src/irgen_spec.rs`, `src/irgen.rs` (and `src/irgen/`), `src/numtext.rs`: the IR text
  each construct produces, and the generator proved to write it.
- `src/codegen.rs`, `src/cli.rs`, `src/manifest.rs`: native builds (which tool runs next,
  with which arguments), command-line decisions, and `sekirei.toml` templates and paths.
- `app/`: the `sekirei` and `skp` programs: file and process work, and reading
  `sekirei.toml` with serde.
- `tests/`: tests of the library on concrete programs.

Design notes:

- The analyzer's variable scopes, function and struct tables, and the IR generator's
  variables are vectors of `(name, value)` pairs where the latest entry for a name wins,
  in place of `HashMap<String, _>`. Verus's specification of `HashMap` proves nothing of
  lookups with `String` keys, so a lookup after an insert could not have been proved.
- Paths are joined with std's `Path::join` (behind a wrapper in `src/manifest.rs`), so they
  follow the target's separator and its rule for absolute paths.
- Float literals are kept as their source text, since the library holds no floating-point
  values. The IR prints a literal's own digits in exponent form. This matches a parsed
  64-bit float for literals of up to fifteen significant digits, but not for longer
  literals or for literals beyond a float's range.
