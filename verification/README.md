# conlang

Conlang is an expression-oriented programming language. This crate holds the
parts of its toolchain that work on plain values, each with a contract proved
by Verus:

- `constr`: character-stream tools (escape sequences, integer parsing in any base).
- `token`, `lexer`: the token kinds and keywords, and a lexer whose result is
  stated over a specification of the whole token grammar.
- `ast`, `ast_text`, `loc_order`: the syntax tree, its rendering as source
  text, and the order of source locations.
- `parse_error`: the parser's error kinds.
- `typeck`: constant evaluation, primitive and intrinsic types, the scope list.
- `infer`: the type graph and type inference: pruning, the occurs check,
  unification, deep copies of generic types, and inference over expressions.
- `interpreter`: run-time values, their operators, and the variable environment.
- `resolver`: the scope and module tables of the name resolver.
- `format`, `printer`: brace-driven indentation and a layout printer.
- `combinator`: combinators over results.

The crate holds no parser and no tree-walking evaluator; it provides the
pieces those stages are built from.

`app/` is the command-line front end: it reads a file and prints its tokens,
or re-indents it with `--pretty`.

Laws of the library (what one operation undoes of another, what a lookup
gives back after a binding, and so on) are the public `law_*` proof functions.
