# drone_core registers

The register-definition layer of an embedded operating system, as a verified
library.

- `src/token.rs`: token trees as a procedural macro receives them, and their
  model.
- `src/syntax.rs`: the shared grammar pieces (names, integer literals, module
  paths, outer attributes, visibility), each with its printing and its parser,
  and lemmas that the parser reads back exactly what the printing writes.
- `src/literal.rs`: the value of an integer literal, read from its text.
- `src/printing.rs`: appending tokens, with what each call appends stated
  over the token model.
- `src/reg_syntax.rs`, `src/reg.rs`, `src/reg_items.rs`: the register
  declaration, its grammar, the plan of the items it expands to, and those
  items written out as tokens.
- `src/reg_index_syntax.rs`, `src/reg_index.rs`, `src/reg_index_items.rs`: the
  register index declaration, its grammar, its plan, and its items.
- `src/keyword.rs`, `src/names.rs`: reserved words, generated names, word
  lists without repetition.
- `src/log_baud_rate.rs`: the log baud rate chosen from the configuration.
- `src/thread_future.rs`: the future for a routine's result and the routine's
  decisions.
- `app/`: the procedural macros themselves: conversion between the
  compiler's tokens and the library's, reading the configuration file, and
  the `futures` glue of the thread future.
