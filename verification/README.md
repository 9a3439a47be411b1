# omadoctor

A terminal tool that detects and repairs known problems of an Omarchy Linux
system from TOML fix definitions, and searches upstream issues on GitHub.

The library (`src/`) holds the tool's logic, verified with Verus:

- `engine` — merging fix definitions from several directories by priority
  (the first definition of an identifier wins), ordering them by name, and
  the selection cursor.
- `state` — the interactive screens as a state machine: each key press gives
  the next state and the outside work to perform (detect, fix, search, quit).
- `github` — version numbers and the update check, the issue search address
  and its result.
- `archive` — taking the `.toml` files out of a downloaded fix archive.
- `detector`, `fixer` — the results of running commands, and the progress
  schedule shown while a fix runs.
- `view` — what the screens and the scan report say.
- `issue`, `text` — the fix definition record, and text helpers.

`app/` is the program around it: command line, terminal drawing, running
shell commands, reading files and talking to GitHub.
