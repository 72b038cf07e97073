# fuel_vm

The core of the Fuel virtual machine, written in Verus: each function carries a
contract that states what it does, and Verus proves the code against it.

## Layout

- `src/` — the verified library.
  - `range.rs`, `ownership.rs`, `memory.rs`: memory ranges, which context may write
    where, and the VM memory itself (a stack growing up from address zero and a heap
    growing down from the top), with its rollback data.
  - `memory_ops.rs`, `bytes.rs`: loads, stores, copies, comparisons, register pushes
    and pops, stack pointer moves, heap allocation.
  - `gas.rs`, `flow.rs`, `internal.rs`: gas schedules and charges, jumps, the program
    counter and flags.
  - `interpreter.rs`, `executors.rs`, `run.rs`, `receipts.rs`: the interpreter state,
    the steps of a contract call (with its frame and code placed in memory), returns
    and reverts, the execution of the arithmetic, logic, memory, stack and
    control-flow instructions, which action a transaction takes, the run of a script
    with the gas it used, and the receipts that a run records.
  - `metadata.rs`: the transaction field instruction over the fields of the running
    transaction, held as plain values.
  - `predicate.rs`: predicates in memory, and the verdict of a predicate check from
    the outcome of its run.
  - `opcode.rs`, `jit.rs`: instruction encoding and the planning of the blocks that
    the just-in-time compiler runs natively.
  - `state.rs`: breakpoints and the debugger.
  - `math.rs`, `storage.rs`, `profiler.rs`, `owned_or_mut.rs`,
    `consts.rs`, `error.rs`: the rest.
- `tests/` — tests on concrete values.
- `app/` — what surrounds the library: environment switches, block compiler
  statistics, the floating-point first guess of integer roots, and conversions to the
  types of `fuel_asm` and `fuel_types`.

The statements that span several functions are the public proof functions whose
names begin with `law_`.
