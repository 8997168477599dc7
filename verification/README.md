# svd_rs

A verified library for CMSIS-SVD device descriptions and for patching them.

- `src/` holds the data model of a device (peripherals, registers, clusters,
  fields, enumerated values, ...) with builders, validation and derivation,
  and under `src/patch/` the rules of the patch tool: reading patch files,
  matching names against patterns, and editing devices, peripherals,
  registers and fields. Every function states its behaviour in `requires` /
  `ensures` and is proved by Verus.
- `tests/` exercises the library on concrete values.
- `app/` is the command-line tool around the library: it reads the text of
  the patch files from disk and walks the files they bring in, in the order
  the library's reading functions (`src/patch/inclusion.rs`) ask for.

Four calls are trusted rather than proved: YAML text is read with the
`yaml-rust` crate, name patterns are matched with the `globset` crate, the
two fixed name rules are checked with the `regex` crate, and characters are
appended with `String::push`.
