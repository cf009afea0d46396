# watchr

A file watcher that runs a command whenever files in a folder change.

- `src/` is the verified library (Verus): the settings merge, the ignore
  rules, the debouncing state machine, the run protocol (which steps a change
  and the end of a command lead to), the
  run-history file format, and the text handling they rest on.
- `app/` is the command itself: argument parsing, the project file, the
  history file on disk, the terminal, and the event loop that feeds
  file-system events to `Debouncer::on_event` and carries out the steps that
  `Runner::begin` and `Runner::end_actions` lay out.
- `tests/` exercises the library on concrete values.
