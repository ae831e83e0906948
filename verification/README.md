# riptide

The core of a Python test engine: test discovery, impact analysis and
result bookkeeping, written in Verus with proved contracts.

- `src/collector.rs` — the line grammar of test classes and test functions,
  pytest node ids, and which files discovery looks at.
- `src/pattern.rs` — file-name patterns compiled by the `regex` crate.
- `src/impact.rs` — which tests a change can affect, step by step and as a
  partition of the collected tests; which files changed.
- `src/runner.rs` — test statuses, reading pytest output, the commands that
  run one test, test results.
- `src/coverage.rs` — reading coverage reports (JSON text parsed by
  `serde_json` into a value model) and writing line lists.
- `src/fingerprint.rs` — SHA-256 fingerprints of files, in lowercase hex.
- `src/pipeline.rs` — the stages of a run, the choice between running
  everything and impact analysis, and the exit code.
- `src/text.rs` — character classes and string helpers.

`app/` is the command-line program around the library: argument parsing,
walking directories, the SQLite state database, subprocesses, the thread
pool and terminal output.
