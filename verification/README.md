# RustScript front end, verified

RustScript melds Rust's syntax with TypeScript's approachability. This crate
is its compiler front end: source text is lexed, parsed, type checked and
compiled to the bytecode of the RustScript virtual machine. Every step is
verified with Verus against a statement of what it computes.

## Layout

- `src/lexer.rs`, `src/token.rs`: the tokens of a source text (`lex_spec`).
- `src/grammar.rs`: the grammar, as functions on token sequences
  (`parse_source`); `src/parser.rs` is the parser, proved to compute it.
- `src/wellformed.rs`: what every parsed program satisfies (`break` only in
  loops, `return` only in functions, blocks list the names they declare).
- `src/structs.rs`: the syntax tree, its mathematical view and printed form.
- `src/typing.rs`: the type system (`type_of_program`); `src/type_checker.rs`
  is the checker, proved to compute it.
- `src/codegen.rs`: the code of each piece of syntax (`c_program`), and the
  proof that every jump lands inside the program; `src/compiler.rs` is the
  compiler and the whole pipeline (`compile_from_string`).
- `src/bytecode.rs`: instructions and values; `src/framing.rs`: the framing
  of serialized bytecode files, with the proof that reading gives back what
  was written.
- `app/`: the `oxidate` command, which reads a `.rst` file, compiles it and
  writes the `.o2` bytecode file (serialized with bincode).

## Language points worth knowing

- `-` is always a token of its own: `2-3` is a subtraction and `-3` a
  negation of `3`. `fn`, `loop`, `break`, `return` and `->` are tokens too.
- `// ...` line comments are skipped along with whitespace; programs in the
  parser's scenarios carry such comments.
- A call of a user function has the function's declared return type, which
  is what lets a recursive function such as `fn f(x: int) -> int { f(x-1) }`
  check. Its arguments are not checked against the parameters; a call of a
  name that is not a function is a unit. Built-in functions check their
  arguments.
- A branch of an `if`-`else` that surely breaks out of its loop takes the
  type of the other branch.
