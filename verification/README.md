# rocklang

The front end and the code generator's data of Rock, a small JIT-compiled
language, as a library verified with Verus, and the program around it.

## Layout

- `src/` — the verified library.
  - `tokenizer.rs`: source text to tokens. `tokenize_spec` is the model of
    tokenizing; `Tokenizer::try_tokenize` is proved to compute it, and every
    token list it gives ends with a single `Eof`.
  - `grammar.rs`: the model of parsing, one spec function per construct, each
    giving a result and the position after it, a syntax error, or `Stuck` where
    parsing does not come to an end. `parser.rs` holds the recursive-descent
    `Parser`, whose methods are proved to compute these functions.
  - `token.rs`, `expression.rs`: tokens and the syntax tree, with their models.
  - `compiler/`: what the code generator keeps and decides — variables by
    name (`bindings.rs`, `frame.rs`, `scope.rs`), the values expressions compile
    to, the builtins, the errors it reports, and in `rules.rs` which values each
    expression accepts, which instruction it emits and which reference-counting
    calls the generated code makes, down to the plan of an assignment (release,
    store, retain) and of a function's parameters, and in `lookup.rs` which
    binding a name denotes (builtins, then inner scopes before outer ones,
    variables before parameters).
  - `llvm.rs`: handles naming LLVM objects by address.
  - `text.rs`, `chars.rs`: string building and the character classes of `char`.
- `tests/` — tests of the library.
- `app/` — the `rocklang` program (and, started as `rocki`, the interactive
  evaluator): reading files, printing the syntax tree as JSON, and driving LLVM
  to generate code and run it, with the runtime library compiled programs call.

## The language

```
sum = (a: number, b: number): number => {
	a + b
}
print(string(sum(1, 2)))
```

A numeric literal is kept as the characters it was written with; the code
generator turns it into a `double`. A numeric token displays in its shortest
decimal form (`10.0` as `10`).
