# mahgit

A keyboard-driven terminal Git interface in the spirit of Magit, whose logic
is a library verified with Verus.

## Layout

- `src/` — the verified library. Its functions state their behaviour in
  `requires` / `ensures` over mathematical models (`Seq`, `Set`, `int`) and
  Verus proves it. What depends on the clock, on the disk or on values that
  `syntect`, `git2` and `toml` keep opaque is stated only as far as it can
  be: the decision is made by a verified function that takes the outside
  result (the elapsed time, the syntax found, the pieces highlighted) as an
  argument.
  - `diff/` — diffs: assembling a file's diff from git's patch lines,
    synthetic diffs for untracked and deleted files, merging adjacent hunks,
    word-level inline changes (through `similar`), hunk navigation and
    syntax highlighting (through `syntect`).
  - `operations/` — the patches that stage, unstage and discard a hunk, and
    the preparation of commits and their messages.
  - `status.rs`, `repository.rs`, `log.rs` — repository status sorted into
    sections, path normalization and index updates, commit history entries.
  - `ui/` — the state machines of the interface: status and log navigation,
    key handling, the diff viewer, search, feedback messages, modals, and the
    rows each view draws.
  - `calendar.rs`, `text.rs`, `theme.rs`, `config.rs` — dates, text helpers,
    the palette and configuration.
- `app/` — the program around the library: the terminal, the event loop,
  the configuration file and every call that reads or changes the
  repository on disk (git2, `git apply`, `git commit`).
- `tests/` — tests of the library on concrete values.

Laws that span several functions (what a move up undoes of a move down, that
merging hunks keeps every line and is idempotent, that the drawn rows match
the navigation state, that calendar dates and day numbers are inverse) are
public proof functions next to the functions they speak of.
