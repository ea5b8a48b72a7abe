# grafana_notify

A desktop monitor that polls Grafana instances for firing alerts and notifies
the user. The decisions are a library, proved with Verus; the window, the tray,
the network and the configuration file are ordinary Rust around it.

- `src/` is the library.
  - `alert`, `json`: reading alerts from a reply, one by one.
  - `config`: defaults, older shapes of the file, what takes effect when.
  - `endpoint`, `silence`, `clock`: which requests are sent, and with what.
  - `poll`, `state`: a polling cycle, from the replies to the new state and the
    actions to perform.
  - `notification`, `desktop`: what the user sees.
  - `string_map`, `text`: maps keyed by text, and text helpers.
  - `laws`: what holds of the whole.
- `tests/` runs the library on concrete values.
- `app/` is the application. Only `app/shell.rs` needs Tauri and its plugins.
