# trinity_mapper

Remapper for the twelve side buttons of the Razer Naga Trinity on Linux,
with its logic verified by Verus.

## Layout

- `src/` — the verified library.
  - Domain: `button`, `key`, `modifier`, `combo`, `node`, `profile`,
    `calibration`, `translation`, `error`, `slots`, `assoc`, `order`, `text`.
  - Engine: `event`, `translator`, `refcount` (laws of the key reference
    counts), `session` (guided calibration), `engine`, `ports`, `services`,
    `use_cases`, `testing` (in-memory ports).
  - Daemon: `daemon` (what each IPC request does, one engine-loop turn),
    `dto` (exchanged profiles), `files` (profile and calibration files),
    `devices` (node discovery, event conversion, mirror capabilities),
    `config`, `container`, `ctl` (command-line client).
  - GUI: `gui` (daemon client, profile edits), `gui_state` (the window's
    state machine), `capture` (key capture and labels), `locale`.
- `tests/` — tests run against the compiled library.
- `app/` — the daemon binary: sockets, threads, evdev/uinput, TOML and JSON
  (de)serialisation, configuration directories.
