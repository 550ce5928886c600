# blade-graphics (WebGPU backend), verified core

The decisions of a WebGPU rendering backend, written in Verus and proved
against their contracts, with the device calls around them in ordinary Rust.

## Layout

- `src/` — the verified library.
  - `align` — uniform size rounding and powers of two.
  - `handles` — resource keys and handles, frames, texture formats.
  - `command` — command recording: passes, pipelines, bind group entries and
    plain uniform data packing.
  - `execute` — replay planning: steps of a command list, bind group
    flushing with per-binding deduplication, load/store and copy rules.
  - `cache` — bind group cache with dependency tracking, first-in first-out
    eviction and exact invalidation.
  - `uniform`, `timing`, `dirty` — the uniform buffer ring, the GPU timing
    ring, and shadow-buffer dirty ranges.
  - `pipeline`, `resource` — layout entries, vertex attributes, buffer and
    texture usages, views and sampler limits.
  - `cli` — argument parsing and paths of the WASM debug runner.
- `tests/` — tests of the library on concrete values.
- `app/` — the runner's `main` and the wgpu device side: resource registries,
  device and surface creation, and command replay on a wgpu encoder, each
  step as the library decides it.
