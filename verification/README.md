# irvm

A small register-and-stack virtual machine and the intermediate representation
that feeds it, verified with Verus.

- `src/value.rs` — constants (`Primitive`) and runtime values (`Value`), with
  their mathematical models, deep equality and copying, and the decimal text of
  constants.
- `src/error.rs` — the errors an operation or a run can end in.
- `src/ops.rs` — the `Ops` trait and what each operation computes on values
  (integer arithmetic that rounds toward zero, string concatenation,
  comparisons, membership and indexing of arrays and dictionaries).
- `src/instruction.rs` — opcodes, registers, operands and instructions.
- `src/vm.rs` — the environment of named values, the machine, the meaning of
  one instruction (`step`) and of a whole program (`run`), and `Vm::execute`,
  proved to follow `run`.
- `src/ir/types.rs` — identifiers, names, blocks, flow graphs, functions and
  modules, and the listing of a module; the constant pool is an
  `indexmap::IndexSet`.
- `src/laws.rs` — properties across operations and runs.
- `app/lib.rs` — text labels of identifiers, the arithmetic of
  floating-point operands, and calls on dynamic objects of the embedding
  program.
