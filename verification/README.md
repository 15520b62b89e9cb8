# kyte

The front end and editor support of the Kyte language, verified with Verus.

`src/` is the library. Every function in it carries a `requires`/`ensures`
contract over mathematical models (`Seq`, `Map`, spec functions). Verus
proves each body against its contract, except for six small wrappers
around std (`char::is_alphanumeric`, `char::is_alphabetic`,
`char::is_uppercase`, `char::from_u32`, string collection and `Debug`
formatting), marked `#[verifier::external_body]`, whose contracts are
trusted.

- `text`, `imports`: lines, trimming, words; import lines, grouped imports,
  the blanking of import lines that keeps line numbers, and where a
  standard-library import lives.
- `lexer`, `parser` (with `parser/grammar.rs` and `parser/items.rs`, the
  grammar as spec functions): tokens and the syntax tree.
- `analyzer`: the semantic analysis. First the checks on a program's
  declarations (its main anchor, duplicates, circular structs), then the
  bodies of its anchors and functions: type inference of expressions (its
  result proved equal to a spec of the expression's type), statement checks
  with nested scopes and their undo log, integer ranges, control flow,
  Vaults in loops, unused variables and unreachable code. `diagnostics`
  renders what they report.
- `liveness`, `mono`: where Vault variables are freed; generic names and
  type-argument inference.
- `symbols`, `definition`, `hover`, `references`, `completion`,
  `signature`, `code_actions`, `publish`, `keywords`, `lsp`: what the
  language server answers, computed from the document's text.
- `cache`: the names of the build cache's files.

`app/` is the `kyte` command around the library: it reads files, prints
diagnostics, and with `kyte lsp` serves an editor over stdio through
`lsp-server` and `lsp-types`.

`tests/` runs the library on concrete programs.
