# backup_client

A backup client that schedules tasks on remote backup servers over WSS,
downloads the archives they produce and keeps them locally, with a read-only
dashboard and an offline tool that decrypts `BACKUPENC1` (`.aes`) files.

The decisions of the client are a Verus library, proved against their
contracts; the program around them (terminal menus, SQLite, the network,
TLS, the scheduler's timers) is ordinary Rust that calls the library.

## Layout

- `src/` — the verified library.
  - `cron`: schedule normalization (`*/N` minutes, hour intervals, five and
    six fields), validation, and the next fire time through the cron crate.
  - `protocol`: reading server messages, the messages the client sends,
    matching a downloaded file back to its task, waiting for a reply.
  - `run_tracker`, `session`, `scheduler`: runs in flight, pending work per
    server, idle disconnects, the recovery state machine, submit retries.
  - `retention`, `anomaly`, `download`, `dir_sync`, `monitor`: what is kept,
    flagged, checked and shown.
  - `task_params`, `json`, `validation`, `ui`, `menu`, `i18n`, `paths`, `ca`,
    `device_id`: task data, input checks, menu choices, localized texts, paths,
    certificate and device-identity helpers.
  - `config`, `crypto`, `decrypt_flow`, `browse`: the decryption tool's
    settings, the `BACKUPENC1` format, password choice and the folder browser.
  - `text`, `strmap`, `digest`, `clock`: character-level text functions, a
    sorted string map, SHA-256/hex and RFC 3339 instants.
- `app/` — the executable: `main.rs` (CLI), menus and prompts, the database,
  network and TLS, the scheduler loop, the dashboard and the decryption tool.
- `tests/` — tests run against the compiled library.

Proofs of properties that relate several operations are the `law_*` proof
functions (for example `retention::law_retention_keeps_latest`,
`session::law_recovery_terminates`, `run_tracker::law_take_after_map`).
