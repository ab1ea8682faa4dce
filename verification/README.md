# emusync

Keeps emulator saves, configs, mods and shader caches in sync between two
machines over SSH with rsync. Plain directories are synced both ways (newest
file wins); Ryujinx saves are paired by the title ID stored in each save
folder's `ExtraData0`, since folder numbers differ between machines.

Layout:

- `src/` — the verified library (Verus):
  - `text.rs`: trimming, splitting, lines, number parsing and printing, path joining;
  - `config.rs`: the configuration, path lookup, detection of the local machine;
  - `sync.rs`: rsync command lines, exit status and output reading, two-way
    sync plans, the remote file count, and the local tree walk;
  - `ryujinx.rs`: `ExtraData0` parsing, the remote save listing, save maps,
    the save, mods and shader sync decisions, and save status;
  - `cli.rs`: direction flags, target selection, and report lines.
- `app/` — the command-line program: argument parsing, the configuration
  file, running rsync and ssh, reading directories, and JSON output.
- `tests/` — tests of the library.
