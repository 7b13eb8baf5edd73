# bcsfe

A library for reading, editing and writing the sections of Battle Cats save
data, verified with Verus. It reads and writes the sections one by one; it
does not yet assemble them into a whole save file.

- `src/stream` — the byte format: little-endian integers, counted lists,
  strings, maps and variable-length integers, each reader and writer
  specified against a spec function of the bytes, with round-trip laws.
- `src/save`, `src/blocks` — sections of a save (dates, chapters, event
  progress, cats, lineups, the gold pass, enigma stages, ...), each closed
  by a marker number where the format has one.
- `src/game/main_story.rs`, `src/edits` — main story progress, the
  operations that clear stages and chapters, and edits that can be applied
  and taken back; clearing up to a stage, un-clearing down to one, setting
  a stage's clear count and clearing the selected chapters each record one
  edit per step.
- `src/hash.rs` — the MD5 hash that ends a save, and region detection.
- `src/network` — request signatures, nonces, headers, the account state
  an upload builds, transfer replies, and strings kept among order ids.
- `src/game_data.rs`, `src/ui` — which archived game version to take, the
  pack of a language, the editor's screens and value checks.
- `app/` — the I/O around the library: HTTP requests with `reqwest`, JSON
  with `serde`, archives with `tar`/`xz2`, files and time.
