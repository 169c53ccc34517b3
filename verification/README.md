# frey

The front end of the Frey compiler as a verified library: the lexer, the
parser, the type-level parts of the HIR (types, generics, literal coercion,
compile-time evaluation), the type checker, the module loader, the command
line, diagnostics and struct layout. The functions in `src/` carry
contracts that Verus proves, except the few marked
`#[verifier::external_body]`: they wrap calls into `pico-args` and into
std's formatting and path handling, and their contracts are trusted.

- `src/lexer/`: tokens and the lexer; `spec.rs` states the token grammar,
  `tokenize_at` is proved to produce exactly what it says.
- `src/ast/`: the AST and the recursive-descent parser; `grammar.rs` states
  what each parsing function reads and builds, as spec functions over token
  sequences, and the parser is proved to follow it.
- `src/hir/`: HIR types, unification of generic types, integer-literal
  coercion and compile-time evaluation; `lower.rs` lowers type expressions
  (specializing generic structs and enums), `register.rs` registers a
  program's struct and enum declarations and `signatures.rs` its function
  signatures. `expr.rs` lowers whole programs: function bodies, blocks,
  statements, local declarations and expressions (calls, overloaded and
  method calls through `overload.rs`, field access through `field.rs`,
  struct literals, heap intrinsics). `scan.rs` looks for type variables left
  in lowered expressions and `capture.rs` rewrites a closure body to read
  its captured locals from the environment tuple. Closures, function
  literals inside bodies, `match`, enum variant constructors, generic
  struct literals, calls of generic functions and `#comptime` declarations
  are reported as not lowered.
- `src/semantics/`: the type checker, against a state-threading spec of the
  typing rules.
- `src/modules.rs`: the source map and the module loader's bookkeeping.
- `src/cli.rs`: command-line parsing (through `pico-args`).
- `src/report.rs`: the lines of a diagnostic.
- `src/driver.rs`: the default output path.
- `src/codegen/layout.rs`: sizes and alignments of structs and enums.
- `app/`: the `frey` program: arguments, file I/O and printing.
- `tests/`: the test suite.
