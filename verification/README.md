# NetSentry

A tray application that watches the local network connection: every few seconds it
checks whether an adapter has a usable IPv4 address and whether a ping target answers,
records each disconnection with its start, end and length, and offers the state in its
window and through a small embedded web service.

## Layout

- `src/` — the library, verified with Verus: the settings and their repair, the language
  resource, the log line format and the log view, what each network check records, the
  asset paths and API access rules of the web service, the access token, and the tray menu.
  Each module states its laws as proof functions named `law_*`.
- `app/` — the application around it: the Tauri window and tray, the monitor loop, the
  axum web service, the files under the configuration directory, the registry entry.
- `tests/` — tests of the library on concrete values.

The language resource is read at start-up from `i18n.json` beside the executable (or in
the working directory); without it every message key stands for itself.
