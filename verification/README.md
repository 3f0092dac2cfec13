# Key-Speed Notepad Logger, verified core

A notepad that logs each key press with the interval since the previous one,
keeps per-session statistics (keys typed, average interval with a fast /
medium / slow colour), starts a new session after a pause of 1.5 s, and
exports the log as CSV.

- `src/` is the logger's state and rules, verified with Verus: the
  key-press transition and its invariant (`logger`), the log entries
  (`entry`), which input events are key presses (`keys`), the `HH:MM:SS.mmm`
  timestamps (`clock`, formatted by chrono), the CSV document (`export`,
  written by the csv crate), the texts and colour classes the window shows
  (`display`), character and word counts and decimal numbers (`text`), and the
  platform names (`platform`).
- `app/` is the eframe window: it reads the monotonic clock, the local time and
  the input events, draws the state, and saves exports through an rfd file
  dialog.
- `tests/` runs the library on concrete inputs.
