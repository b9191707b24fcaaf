# malus

Compiler and runtime core of `malus`, a small tensor language for Apple
Silicon, written in Verus. A program consists of `fn`s, which run on the host,
and `kernel`s, which run on the GPU. The library turns a typed program into an
instruction list for the host and into Metal sources for the GPU, and keeps the
books of the running program: which tensors live, which device buffer each of
them uses, which work is still pending, and how a gradient flows back.

## Layout

- `src/loader.rs`, `src/lint.rs`, `src/cli.rs`: loading of files and what they
  import, the rule that optimizer logic is written once, the command line.
- `src/typed.rs`, `src/ast.rs`: typed and parsed programs.
- `src/codegen_cpu/`: host code. `scheme_*.rs` say what each expression and
  statement lowers to, `lower_*.rs` do it, and `code_laws*.rs` prove that all
  generated code is well-formed. For functions that compute with integers and
  truth values and build, read, write, match and give up structs, tuples, enums,
  arrays and lists, `machine.rs` says how code runs, `meaning.rs`, `flow.rs` and
  `releases.rs` what expressions and statements do, and `running.rs`,
  `match_runs.rs`, `box_*.rs`, `release_*.rs` and `function_runs.rs` prove that
  the code does the same: the same result, the same memory, the same calls of
  the runtime. Loops over elements, calls of other functions and floating point
  are not part of that proof.
- `src/codegen_gpu/`: kernel sources, those of the program's kernels and those
  of the built-in operations that its functions use.
- `src/runtime/`: tensors, buffer reuse, device generations, the gradient tape
  and the backward pass, shapes, random numbers, texts, counters, timing.
- `app/`: the command, the Cranelift back end that replays the instruction
  list, the C functions that generated code calls, and the Metal device.
- `tests/`: tests of the library. Those of `codegen_cpu` interpret the
  instruction list.

Elements are never computed with in `src/`, which has no floating point. What
moves elements around is generic in their type and takes the operation as an
argument.
