# me3_mod

Verified core of a mod host for FromSoftware games: the mod profile format,
the bookkeeping of the game's virtual file system used to override archived
assets, and the scans that locate game structures in memory.

- `src/` — the library, verified with Verus:
  - `item`, `native`, `package`, `profile::v2` — profile entries and the
    on-disk profile layout, with the sorting of dependencies into natives,
    packages and nested profiles, and the round trip between the two forms;
  - `dl_device`, `lex` — archive mounts, snapshots, virtual path expansion,
    and the sorted text lists they use;
  - `device_scan` — locating the device manager in the `.data` section;
  - `properties` — boolean property overrides and locating the property
    getter from its call sites;
  - `game`, `cs_file`, `text` — per-game decisions and shared helpers.
- `app/` — serde and JSON-schema forms of the profile types, native module
  loading, and memory reads.
- `tests/` — tests of the library on concrete values.
