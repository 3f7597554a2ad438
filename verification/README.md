# faer_wasm_blas

Complex and real BLAS Level 1 and Level 2 routines (column-major
matrices with a column stride), verified with Verus.

Floating-point values are carried as IEEE-754 bit patterns (`u32` for
binary32, `u64` for binary64; `C32`/`C64` hold the two parts of a complex
number). Each rounded operation (add, subtract, multiply, divide)
comes from the `rustc_apfloat` software IEEE-754 implementation behind a
small set of trusted wrappers in `src/ieee.rs`, each of which gives its
result a name. Everything else is proved: which operations every routine
applies, in which order (including the fixed accumulator layout of the
reductions), to which elements, and which storage it leaves untouched.

Layout:

- `src/ieee.rs` — the named IEEE operations and their wrappers; sign,
  absolute value, the NaN test and the comparisons as exact bit
  operations, with the order laws the index-of-maximum routines need.
- `src/c64.rs`, `src/c32.rs` — complex numbers and their canonical
  operations (product order, Smith division, conjugation, scaling).
- `src/L1/` — vector routines, one file per routine.
- `src/schur_params.rs` — the `iparmq`-style shift count and deflation
  window of the multishift QR sweep.
- `src/L2/` — matrix–vector routines, one file per routine, the shape
  check `check_mat`, the β-scaling helpers and the storage lemmas.
- `tests/` — tests on concrete values, run against the real crates.
- `app/` — the same routines on ordinary `f32`/`f64` values: argument
  checks with panics, conversions to and from bit patterns, and the
  square roots and moduli of the rotation generators and norms (libm);
  `app/bench.rs` is the Level 1/2 measurement harness (roofline rows and
  determinism probes) over them.
