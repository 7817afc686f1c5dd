# cargo-promote

Publishes Rust crates through promotion pipelines: a crate goes to a
first registry (or branch), then is promoted stage by stage, with
confirmation, deferral tickets, dependency-ordered workspace publishing
and version bumps.

The library in `src/` is written in Verus, and Verus proves every
function's body against its contract. Where a function hands work to a
port (a trait that adapters implement: publisher, registry query, git,
store, notifier, forge), its contract says what is handed over and that
the result is one of the port's answers; each port method names its
possible answers with a spec function that an adapter may leave open.

- `config` — `promote.toml`: registries, pipelines, the branch pipeline,
  autobump, per-package overrides, the forge; registries found in
  `.cargo/config.toml`.
- `domain` — the model: registries, stages, pipelines and the pipeline
  engine, deferral tickets, `promote.lock`, versions and manifest edits,
  the workspace dependency graph and its topological order; the ports
  (traits) through which the outside world is reached.
- `infra` — what the adapters decide: token lookup, registry listings,
  fast-forward checks, the listing cache.
- `api` — the operations of the command line: publish, promote, ship,
  bump, branch, defer, confirm, reject, publish-all.
- `text`, `strmap`, `toml_doc` — string helpers, an insertion-ordered map
  keyed by strings, and the TOML reading and editing the library uses.

Calls into `toml`, `toml_edit`, `semver`, `sha2`, `serde_json` and
`chrono` stand behind small trusted wrappers whose contracts say what the
library relies on.

`app/` is the command-line program: argument parsing, files, processes,
HTTP and the adapters that implement the ports.
