# resonance

The logic of a small game engine and its editor, written in Verus and
proved against its contracts.

- `src/` is the verified library:
  - `assets/`: the PAK archive format (writing, opening, reading back,
    with the read-back law in `pak_lemmas.rs`), asset ids and handles, asset
    sources, loaders' settings, per-asset load states, and the hot-reload
    watch table.
  - `app/`: stages and their order, the frame runner's stage plan, plugins
    and the plugin registry.
  - `engine_core/`: engine errors, memory accounting, log record text,
    debug-UI toggles, the profiler resource.
  - `editor/`: the editor's entity names and hierarchy, and GPU frame
    readback unpadding.
  - `net/`: channels, message statistics, length-prefixed framing,
    transport settings.
  - `build_utils.rs`: the asset packer's command line.
  - `outside.rs`: every call into an outside crate or an unspecified part of
    std, each behind a contract.
- `tests/` runs the library on concrete values.
- `app/` is ordinary Rust around the library: file and process I/O, the
  asset server and cache, the file watcher, the logger, the loaders that
  decode meshes and audio, the network transports and connections, serde
  types, and the parts that compute in floating point.
