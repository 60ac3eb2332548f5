# atenda

A small HTTP server whose decisions are proved with Verus.

- `src/` is the verified library: request routing (`router`), URL and
  file-name handling (`util`), the modpack catalogue (`modules::fssa`),
  visitor bookkeeping (`modules::ip_info`, `model::ip_info`), side sets of
  mods (`model::fssa`), error mapping (`util::errors`) and the laws that tie
  them together.
- `app/` is the server around it: the hyper service, SQLite and MySQL
  access, files on disk, zip archives, logging and the serde forms of the
  library's records.
- `tests/` runs the library on concrete values.

## Dependencies

`flate2` is named directly only to turn on its `rust_backend` feature: the
`mysql` crate pulls `flate2` in with its default backend switched off, and
without a backend selected `flate2` does not build. Nothing in the code
calls it.
