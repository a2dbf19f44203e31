# fastn

The logic of a fastn/FTD toolchain as a Verus library: FTD sections, parsed
documents, the interpreter's work queue and import resolution, the resolution of
foreign variables and imports of a package, and package configuration paths.
Every function in `src/` carries a contract that Verus proves.

Layout:

- `src/text.rs` — string operations with their specifications.
- `src/p1.rs` — FTD sections, headers and sub-sections.
- `src/names.rs` — `NameMap`, an insertion-ordered map with distinct keys, and `PairSet`.
- `src/ast.rs`, `src/document.rs` — the items of a document and its parsed form
  (aliases, re-exports, exposed names).
- `src/resolve.rs` — names of things: `doc#thing`, aliases, remainders.
- `src/interpreter.rs`, `src/imports.rs` — the interpreter's state, its stack of
  items to process, and the resolution of pending imports.
- `src/value.rs`, `src/doc.rs`, `src/ftd2021.rs` — foreign variables (assets,
  time) and import plans, for the 2022 and 2021 editions.
- `src/config.rs` — editions, package directories, mount points, file candidates
  and download attempts.
- `src/library.rs` — the fpm library of modules.
- `src/laws.rs` — properties that span several functions, as proof functions.
- `tests/` — tests on concrete values.
- `app/` — what the library leaves to its caller: the clock, the file system, and
  fetching over the network.

The outside crates `camino` (path joining, prefixes, parents), `mime_guess`
(media types of file extensions) and `indexmap` (the interpreter's map of things)
are used from `src/` through small trusted wrappers and declarations whose
contracts name their results.
