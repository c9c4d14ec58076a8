# fleetops

An ops board for every coding-agent session (and Codex TUI) running on a WSL2 machine: which
sessions are working, idle, stalled or waiting on an answer, their token use and context fill,
and the wezterm pane each one lives in.

## Layout

- `src/` — the verified library (Verus). Session discovery and liveness, the status fold,
  transcript telemetry and its cache, the Codex lane (rollout selection and the process join),
  wezterm pane parsing, instance discovery and the last-good pane cache, the board rows and
  their order, the doctor report, the snapshot entries, the highlight escapes, and the board's
  state machine with its key table. Each public function states its result exactly over plain
  mathematical models; the laws that span functions are public proof functions.
- `app/` — the `fleet` program around it: filesystem and `/proc` reads, running `tasklist.exe`
  and `wezterm.exe`, the terminal UI loop, and the JSON output of `fleet snapshot`.
- `tests/` — the library's tests.

`fleet` runs the board (`--no-highlight` without pane tints), `fleet doctor` prints a read-only
drift report and `fleet snapshot` prints the board as one JSON object.
