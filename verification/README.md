# deepseek_harness

The DeepseekHarness launcher starts the `@deepseek-ai/dsh` web service,
watches it, and manages its npm registry, extensions and MCP servers.

- `src/` is the library, verified with Verus: the service's state machine
  (restarts, stop, readiness), port search and probing, reading dsh's
  output (ANSI stripping, token URL capture), the steps of a manual start
  and the searches for npx, dsh
  and Node.js as step functions, version ordering, npm registry rules, GitHub release
  checks, extension lists, MCP patches in `cordis.patch.yml`, configuration
  and log naming. Laws that span several calls are public proof functions
  named `law_*`.
- `tests/` runs the library on concrete values.
- `app/` is the Tauri application around it: processes, sockets, files,
  HTTP requests, windows and the tray. It hands the library plain values
  and acts on what comes back.

Path operations, JSON parsing and YAML parsing and rendering are done by
`std::path`, `serde_json` and `serde_yaml`; their results are named in
`src/paths.rs`, `src/json.rs` and `src/yaml.rs`, and the contracts speak
of those names.
