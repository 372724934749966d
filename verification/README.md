# siko

Parts of the compiler of the Siko programming language, written in Verus
with their behaviour stated in contracts and proved.

Layout of `src/`:

- `util` — counters, numbered item tables, sorted class collections, and the
  association-list facts the other modules build on.
- `ir` — types of the intermediate representation (cloning, comparison,
  renaming of type variables, fixed type arguments), their text for the user
  (`type_format`), the instance resolution cache, the older concrete types,
  and the program's expressions, patterns, type signatures and type
  definitions.
- `syntax` — identifiers and type signatures of the parsed program.
- `mir` — types, functions and type definitions of the middle representation.
- `name_resolver` — modules, imports, module conflicts, class lookup, type
  argument constraints and positions, and the resolution of type signatures
  (`type_processor`).
- `backend` — the function work queue and the store of generated tuple records.
- `cfg` — the control flow graph of a function body, built expression by
  expression.
- `flow_graph` — control and data flow graphs built together from a function
  body, and the environments of blocks.
- `interpreter` — environments, and the extern operations of the prelude on
  integers, truth values and strings.
- `transpiler` — indentation, names, the Rust definitions of type
  definitions and the bodies that the generated Rust code gives to library
  functions.
- `constants`, `config`, `cli` — operator names, settings and the reading of
  the command line.

`app/main.rs` reads the command line and walks the named directories for
`.sk` files; `tests/` holds the tests.
