# pypack

Bundles a Python script with a standalone Python runtime, its dependencies
and launchers into one self-contained directory per target platform.

## Layout

- `src/` is the verified library (Verus). Every function there carries a
  contract that Verus proves, except those that call out to `sha2`, `hex`,
  `serde_json`, `zip` and `std::path::Path::exists`, whose contracts are taken
  on trust:
  - `platform`: targets, their names and triplets, parsing `os-arch`.
  - `text`, `order`: string operations and lexicographic sorting, with
    models over `Seq<char>`.
  - `json`: the JSON values the library reads, decoded by `serde_json`.
  - `analyzer`: the analysis result built from the import report, and the
    requirements list.
  - `downloader`: choosing the runtime archive among a release's assets,
    the `pip download` arguments, archive formats.
  - `launcher`: script launchers, README, and the native launcher's build
    decisions (cache key, toolchain triplet, cargo and rustup output).
  - `archive`: the writes that unpack a ZIP archive (wheels, `.zip`
    runtimes), read by the `zip` crate, and which files are wheels.
  - `bundler`: bundle directory names, the bundle manifest, locating the
    unpacked runtime.
  - `runtime`: what the native launcher decides from the manifest.
  - `cli`: target selection and the application's name.
  - `files`: the file-system query the library makes.
- `app/` is the command-line program around the library: argument
  parsing, processes, downloads, archives and file writes. It also holds
  the native launcher's standalone source (`launcher_main.rs`), which is
  embedded and compiled for each target.
- `tests/` exercises the library.
