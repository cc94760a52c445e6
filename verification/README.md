# beads-workers

A parallel task executor for the beads issue tracker: an orchestrator hands
ready issues to worker processes over a Unix socket, and a command-line tool
shows status, logs, metrics and configuration.

## Layout

- `src/` — the library, verified with Verus: message types and their
  validation, framing, the priority task queue, the worker registry, the
  orchestrator's decisions, the scaler's rules, configuration precedence and
  validation, metrics, status and log reading, and every report's text.
  Each public function states its result in its `ensures`; the `lemma_*`
  proof functions state properties that span several calls.
- `app/` — the `beads-workers` program: argument parsing, files, sockets,
  processes, the terminal, and the JSON/YAML forms of the library's types.
- `tests/` — tests of the library.
