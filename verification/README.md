# rcc_conformance

Verified core of the `rcc` C compiler's conformance harness, together with the
parts of its LLVM back end that decide things without LLVM itself.

`src/` is checked by Verus:

- `report`, `xfail`, `suite_run` — outcomes, per-suite reports (one entry per
  case id, in id order), expected-failure
  lists, and the suite runner (`run_suites`) with its `Adapter` trait.
- `adapters`, `steps`, `compare`, `bytes`, `lines`, `text`, `order`, `metadata`
  — discovery, the step plans that run one case, and the comparison of a run
  with its expected output, for c-testsuite, chibicc, gcc-torture, tcc tests2
  and the llvm-test-suite subset.
- `csmith` — the decisions of the csmith differential runner.
- `render` — the Markdown dashboard and its splicing into a document.
- `abi`, `lowering` — SysV x86-64 parameter and return classification over a
  description of C types, and the small lowering helpers (bit-field widths and
  masks, alignments, linkage, debug integer types).
- `global_init` — the LLVM constant of each scalar piece of an initializer.
- `const_bytes` — the byte image of a constant aggregate initializer, from
  its designated scalar entries, and what an array, struct or union constant
  is made of, one level at a time.
- `debuginfo` — the DWARF description the back end gives each C type, and
  the debug variables it declares for a body's locals.
- `operators` — which LLVM instruction each binary and unary operator becomes.
- `complex` — the real instructions of complex addition, subtraction,
  multiplication and division.
- `llvm_types` — the LLVM type each C type lowers to, one level at a time.
- `aggregate` — how an assignment to an array or record is written.
- `ptr_arith` — the operands and element sizes of pointer arithmetic.
- `casts` — the instruction of each cast.
- `signature` — the LLVM parameter and return types of a classified signature.
- `call` — the LLVM argument list of a call and how its result is stored.
- `entry` — where a function's incoming parameters go, and how it returns.
- `switch` — the cases and default block of an integer switch.
- `storage` — lifetime markers, and the stack positions that variable-length
  arrays save and restore.
- `place` — the type, the volatility and the address computation of a place
  (a local with dereference, field and index projections).
- `filecheck` — ordered `CHECK` / `CHECK-NOT` matching of IR text.
- `idx`, `build_support` — typed index vectors and the LLVM-C prefix check.
- `plan_run` — the outcome of a case from the results of its planned steps.

`app/` is the unverified shell: command line, file system, processes,
timeouts, JSON and TOML. It gives the library plain values (directory
listings, file contents, process results) and performs the steps the library
plans.
