# language

A small expression-oriented programming language, with its front end and its
middle end proved correct against their specifications with Verus.

```rs
fn add(a: int, b: int) -> int {
    a + b
}

fn main() -> int {
    let x = 1;
    let y = if x == 1 { 2 } else { 3 };
    add(x, y)
}
```

## Layout

- `src/parse` — the lexer (bytes to tokens), and a precedence-climbing parser
  from tokens to the untyped syntax tree. `parse::grammar` states, as spec
  functions, what each parsing step gives; every parsing function is proved to
  give exactly that, and to record on the lexer where the tokens end inside a
  construct that needs more (`try_parse` then gives `None`).
- `src/ast` — the untyped and typed syntax trees, and their models.
- `src/scope.rs`, `src/compiler.rs` — nested scopes of bindings, interned
  strings and the registry of function signatures.
- `src/ty.rs`, `src/type_check.rs` — types and the type checker, specified by
  `solve_*` spec functions; `type_check::checked` states that the typed tree a
  check returns is, node by node, the one those functions determine.
- `src/ir.rs`, `src/lower.rs` — the intermediate representation of basic blocks
  and its construction from the typed tree, specified by `lw_*` spec functions;
  where lowering cannot take a step (ending a block twice, `break` outside a
  loop), `try_lower` gives `None`.
- `src/codegen.rs` — the decisions of machine-code generation that do not
  depend on the code generator itself.
- `src/stages` — the first version of the language: a tree-walking interpreter,
  a type checker and a compiler to bytecode, each with its specification. Each
  has a `try_` entry point that gives `None` where the specification has no
  outcome: an overflow or a division by zero, or a construct that is not
  handled yet.
- `app/` — the error types as standard errors, and the front end from source
  text to a typed program.

Laws that relate several operations are public proof functions named `law_*`.
