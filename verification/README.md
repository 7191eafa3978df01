# Distronomicon Desktop

A portable Windows manager for applications published as GitHub releases: it checks for new
releases, downloads and verifies them (SHA-256, optional Authenticode), installs them through a
staging folder, keeps a configurable number of older releases, and rolls back when a health
check fails.

## Layout

- `src/` — the `distronomicon` library, verified with Verus. It holds every decision the
  program makes: release selection per channel, asset choice by pattern and architecture,
  checksum-file parsing and verification, version ordering, update planning and previews,
  retry and lock back-off, archive entry limits and path safety, retention policies, saved
  state and history, profiles, scheduled-task command lines and the settings form.
- `app/` — the Windows program around it: the `eframe` window, file and network I/O
  (`reqwest`, `zip`, `tar` with its decoders, `fs2`), commands and the task scheduler.
- `tests/` — tests of the library on concrete values.

Calls into `regex` and `sha2` stay in the library behind small trusted wrappers whose
contracts are documented where they are declared (`src/assets.rs`, `src/checksum.rs`).
