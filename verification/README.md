# wasmi translator, verified

A Verus library that translates WebAssembly function bodies, one operator
at a time, into the instructions of a register machine, together with the
linear memory types that the translation consults.

Every translation step is specified by a spec function over `TState`, the
mathematical view of the translator: the value stack of providers
(registers and constants), the control frames, the emitted instructions,
the labels and the function-local constants. Each executable step is proved
to produce exactly the state its spec function describes and to keep the
translator's invariant (`TState::wf`), which ties the dynamic registers on
the value stack to a stack discipline and every open frame to the registers
its branches fill. When a step fails, its spec function also gives the
state at the point of failure, and the translator is left in that state.

Conditional branches (`if`, `br_if`) always test their condition register:
the fusion of a preceding comparison into a compare-and-branch instruction
is not part of this library. Registers that preserve overwritten locals
are reference-counted through their occurrences on the value stack and in
the parameters kept for `else` branches; the next `local.set` frees those
no longer in use, and a freed register is reused (the highest first) before
a new one is taken.

Layout of `src/`:

- `memory`: memory types, their builder, validation and subtyping.
- `value`, `ir`, `module`: values, instructions and what the translator
  knows of the module.
- `ops`, `simplify`: constant folding with Wasm semantics and the algebraic
  simplifications of binary operators, with their soundness proofs.
- `regs`, `translator`: the register discipline, the translator state, its
  invariant and the primitive steps.
- `numeric`, `visit_numeric`: numeric operators.
- `frames`, `control`, `branch`, `end`: preservation of locals, `block`,
  `loop`, `if`, `else`, `end`, branches and returns.
- `variables`, `memory_ops`, `table_ops`, `calls`, `wide`: the remaining
  operators.
- `laws`: properties that relate several steps.

`app/` connects the library to `wasmparser`'s operator visitor and evaluates
floating-point operators on constants, which the library hands back.
