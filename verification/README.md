# compiler

A bytecode compiler for a small imperative language, verified with Verus.

- `src/ast.rs`, `src/hir.rs`, `src/ids.rs`, `src/types.rs`, `src/analysis.rs`:
  the syntax tree, the intermediate form and the tables of the semantic
  analysis.
- `src/lowerer.rs`: lowering of the syntax tree into the intermediate form;
  `src/lower_spec.rs` says what it yields, `src/lower_laws.rs` proves that
  the ids it hands out are consecutive and distinct.
- `src/opcodes.rs`, `src/value.rs`, `src/chunk.rs`: the instruction set and
  the chunk that instructions and constants are written to.
- `src/compiler.rs`: the emission of bytecode for statements and
  expressions; `src/compile_spec.rs` says what each node emits,
  `src/compile_laws.rs` and `src/jump_laws.rs` prove what compiling keeps
  and where the jumps of loops lead.
- `src/add_assign.rs`: the `AddAssign` derive: reading the item with `syn`
  into plain values and deciding the impl; `app/lib.rs` writes the impl's
  tokens.
