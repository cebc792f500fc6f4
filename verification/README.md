# cgo_gen

A verified library for generating C ABI wrappers and Go (cgo) facades from a parsed
C/C++ API, written in Verus.

- `src/` — the library: type normalization, IR assembly, macro constants, C header and
  source rendering, Go facade rendering, overload dispatch, build metadata, and the
  laws (`src/laws.rs`) that hold across these steps. Every function carries a contract
  proved by Verus.
- `tests/` — executable tests of the library.
- `app/` — the command-line program: argument handling, reading the YAML config,
  parsing headers with libclang, and writing the generated files.
