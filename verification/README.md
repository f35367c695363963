# DynSpire

A plugin framework: spiers are shared libraries that a host loads at run time
and calls through 64-bit slots. An interface file is the contract between the
two; Rust and Python code is generated from it.

The library under `src/` is verified with Verus.

| Module | What it holds |
|---|---|
| `lexer`, `parser`, `grammar` | interface files: tokens, syntax, and what holds of every file that parses |
| `spelling`, `canonical`, `fragments` | what texts spell: layout, canonical forms read back, fragments |
| `includes` | include directives: resolving, merging, conflicts |
| `ast` | the syntax tree, its canonical form and its hash |
| `codec`, `gen` | generated Rust: codecs, traits, types, clients, dispatch |
| `pygen`, `py_runtime` | generated Python |
| `counting`, `calls`, `pylines` | how often calls and lines stand in generated code |
| `typetable`, `expand`, `dispatch`, `slotgen` | what the attribute macros expand to |
| `reflect`, `marshal` | calls by reflection: schemas, arguments, answers |
| `slots`, `managed` | slots, reference-counted memory and the types in it |
| `tower`, `kvmap`, `ffi` | loading a spier, its configuration, identifiers |
| `rle` | the engine of the demonstration spier |
| `text` | numerals, letter case, cutting |

`app/` is the ordinary Rust around it: files, shared objects, raw memory, macro
glue, Python glue and the demonstration host.
