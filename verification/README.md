# foch_language

The language layer of an Europa Universalis IV mod analyzer, written in
Verus: the Clausewitz script parser, localisation and CSV/JSON document
readers, the EU4 content-family profile, the builtin keyword catalog, the
semantic index (scopes, symbols, calls, keys, aliases, UI elements) and the
checks and laws built on it. Every function under `src/` is verified against
its `requires` / `ensures`; calls into `sha2`, `regex` and `serde_json` go
through small trusted wrappers whose contracts name what those crates
compute.

Layout:

- `src/` — the verified library (`lib.rs` lists its modules).
- `app/` — file and directory access, the on-disk parse cache, the catalog
  loader, and the serde copies of library types.
- `tests/` — tests of the library through its public API.
