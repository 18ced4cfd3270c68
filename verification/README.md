# bwrap-winer

`bwrap-winer` runs Windows programs through Wine inside a bubblewrap
(`bwrap`) sandbox, with no flags of its own: configuration comes from
`WINER_*` environment variables and flat TOML files, layered as
environment → sandbox meta file → user profile → global file → default.
The files are `$XDG_CONFIG_HOME/bwrap-winer/config.toml` (global),
`$XDG_CONFIG_HOME/bwrap-winer/IDs/<WINER_ID>.toml` (the user profile, in
the `IDs` subdirectory of the configuration directory) and
`$XDG_DATA_HOME/bwrap-winer/sandboxes/<WINER_ID>/winer_meta.toml` (the
sandbox meta file).

The decisions are a verified library; the program around it is thin.

## Layout

- `src/` — the library, verified with Verus.
  - `text.rs` — character-level string operations (trim, split, search).
  - `host_path.rs` — `std::path` operations, each behind a small trusted
    wrapper whose result is named by an uninterpreted spec function.
  - `host_snapshot.rs` — what was observed about host paths (existence,
    kind, absolute and canonical forms, ELF magic) and the process
    environment, so every stage is a function of plain values.
  - `configuration_management.rs` — the flat configuration format, the
    configuration cascade and the XDG base directories.
  - `core_data_structures.rs` — configuration layers, the configuration
    pyramid, targets, mounts and the sandbox context.
  - `file_system_utilities.rs` — FNV-1a fingerprints, slugs, tilde
    expansion, mount-point and parent-directory helpers, runner roots.
  - `target_resolution_engine.rs` — command-line parsing, probing for host
    files, the multi-argument scanner, the virtual desktop and the
    classification of the target; the sandbox identity.
  - `sandbox_mount_pipeline.rs` — the shield against shared directories,
    the collection of mounts and their healing.
  - `process_execution_builder.rs` — the bubblewrap command line.
- `tests/` — tests of the library on concrete values.
- `app/main.rs` — the executable: reads the environment, configuration
  files and file system, prints messages, creates directories and finally
  replaces itself with `bwrap`.
