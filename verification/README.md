# ncl

The core of a Minecraft launcher, written in Verus: version manifests and
their inheritance, library and asset planning, launch arguments, Java
runtime discovery and selection, Fabric / Forge / NeoForge installation
steps, mod metadata, downloads with mirrors and retries, and a staged task
pipeline. Every function under `src/` carries a contract that Verus proves.

## Layout

- `src/text.rs`, `src/paths.rs` — strings and `/`-separated paths as
  sequences of characters, with the helpers the rest builds on.
- `src/model/` — version manifests, rules, arguments, libraries, assets,
  Java requirements and mod entries; merging a version with the one it
  inherits from.
- `src/vanilla/` — the version list, install paths and the download plan of
  a version.
- `src/launch/` — offline accounts, the launch command line, game output and
  crash reports.
- `src/java/` — `release` files, `java -version` output, well-known install
  locations, ordering and choosing a runtime, memory recommendation.
- `src/loader/` — Fabric, Forge and NeoForge version lists, install
  profiles and processors.
- `src/mods/` — `mods.toml` / `fabric.mod.json` contents, enabling and
  disabling jars, ordering a mod list.
- `src/net/` — SHA-1 checks, download outcomes, mirrors and retry backoff.
- `src/task/` — tasks, stages, pipelines and the bookkeeping of a run.
- `app/` — the program around the library: files, processes, HTTP, zip
  archives, JSON and TOML decoding, and the async runtime.
- `tests/` — tests of the library on concrete values.

Calls into outside crates (`md-5`, `uuid`, `sha1`, `hex`, `sysinfo`) and a
few std functions stand behind small trusted wrappers, each documented with
what its contract claims.
