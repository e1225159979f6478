# rexafs_gui

The decisions behind the rexafs Assistant shell, as a Verus-verified
library: every function in `src/` carries a contract that Verus proves.

- `src/` — the verified library. `shell` (hosts, panels, controls, keys),
  `transcript` (the transcript reducer), `protocol` and `turns` (messages
  from and to the Codex app server), `receipts`, `access` and `apps`
  (permissions for tools, commands, fetches and connected-app
  confirmations), `settings` (fields the assistant may change and the
  receipt lines of a change), `plots`, `jobs`, `requests`,
  `import_request` and `intake` (assistant file intake), `group_menu`,
  `locks`, `analysis`, `fluorescence`, and the helpers `text`, `json` and
  `json_text`.
- `tests/` — tests run against the compiled library.
- `app/` — glue that the library cannot hold: serde conversions, file
  staging, clocks, and the pixel layout computed in floating point.

Laws of the library (what every operation keeps) are the `law_*` proof
functions next to the code they speak of.
