# koto

A front end for the Koto language, and the core of its maps, written and proved in Verus.

## Layout

- `src/lexer.rs`: lexed source and the cursor that the parser walks over it with.
- `src/ast.rs`, `src/constant_pool.rs`, `src/error.rs`: what a parse produces.
- `src/frame.rs`: the bookkeeping that tells a function's locals from the ids that it captures.
- `src/parser/`: the parser. `state.rs` says what a parse has read and produced at any time,
  `grammar.rs` what each construct is parsed to, and the other files hold the code that is proved
  to do exactly that. `laws.rs` states what follows for the grammar as a whole.
- `src/holz.rs`: trees of Holz scripts, built from the pairs that a pest grammar matched.
- `src/value_map.rs`, `src/map_module.rs`: maps that keep their entries in the order of insertion,
  and the functions of the `map` module.
- `app/`: ordinary Rust around the library. It reads the tokens of a lexer, converts the pairs of a
  pest parser, and runs the functions that a map function calls for.
- `tests/`: what the library does on concrete inputs.

## Boundaries

Floating point stays out of the library. A number token comes with its value, which is zero, one,
or the bits of a double. A value in a map stands for itself by an identity and a rank.

Two functions are called on trust: `String::push`, and `pest::Position::line_col`, which counts the
lines and columns of a Holz script. Their contracts stand next to the calls.
