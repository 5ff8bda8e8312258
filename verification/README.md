# buzz_daemon

Verified core of Buzz's managed daemons: portable daemon packages (a
`DAEMON.md` policy with optional `scripts/` and `references/`), their primary
bindings to managed agents and channels, durable run receipts, the UTC cron
scheduler, and the loopback control plane that runs one bounded activation of
an agent at a time.

## Layout

- `src/` — the library, verified with Verus. Every public function carries a
  contract over mathematical models (`Seq`, `Map`, `Set`, spec functions).
  - `validation` — DAEMON.md framing and policy rules.
  - `package` — package layout rules, tree scan, content hash.
  - `bindings` — the binding store: one primary binding per daemon, updates,
    deletion, agent selection.
  - `runs` — run records: fingerprints, idempotent reservation, lifecycle,
    the write guard that keeps terminal receipts immutable, scheduler receipts.
  - `history` — pruning plan and display order of run history.
  - `schedule` — due occurrences, claims, cursors and the plan of one tick.
  - `control`, `completion` — the control plane and the agent's completion tool.
  - `direct` — runs started straight from a package root.
  - `laws` — properties that relate several operations.
  - `foreign` — the contracts believed of sha2, hex, serde_json, uuid, cron,
    chrono, subtle and url.
- `tests/` — executable tests of the library.
- `app/` — the host side: serde forms of the records, files on disk, the
  store lock, the scheduler thread, the HTTP server and client. Its decisions
  come from the library; what it checks itself is what only serde, the file
  system or HTTP can see (a frontmatter that is not a YAML map, request
  framing, I/O errors).
