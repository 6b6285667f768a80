# simple-profiler

A low-overhead local system profiler for macOS: it samples CPU, memory, disk,
network, process and GPU figures, detects sustained anomalies, and manages
itself as a per-user launchd service.

The library under `src/` is written in Verus and verified: every function
carries a contract, and the rules of the profiler are stated as proof
functions next to the code they govern.

- `anomaly` — the sustained-threshold detector: its per-rule state machine,
  the engine over rules and resources, and the laws the detector obeys
  (events open only after sustained breaches, close only after sustained
  recovery, never downgrade, survive data gaps).
- `anomaly_storage`, `process_storage`, `storage` — what the store writes for
  an evaluation, evidence windows, retention cutoffs and rollup buckets.
- `process_collector` — `nettop` parsing, counter deltas guarded against pid
  reuse, collector capabilities, and the ranking that picks the processes a
  snapshot keeps.
- `gpu` — the GPU collector's schedule and backoff, and what the `ioreg`
  statistics become.
- `powermetrics` — the per-process GPU table that the root-run helper reads
  from `powermetrics`.
- `report`, `report_text` — report ranges and resolutions, chart buckets,
  relative durations, and the text pieces of a report (HTML escaping, labels,
  byte counts).
- `service`, `logging`, `instance` — launchd paths, the launch agent and CLI
  launcher, `launchctl print` parsing, uninstall plans, log rotation.
- `float_bits`, `text`, `config`, `model`, `collector` — measurements as
  binary64 bit patterns, character-level helpers, settings and shared types.

`app/` holds the program around it: the command line, `sysinfo` collectors,
SQLite storage, `launchctl` and file operations, logging, the HTML report
writer, and the GPU helper's sampling and snapshot file.  `tests/` exercises
the library with concrete values.
