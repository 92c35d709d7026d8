# Middlesox

A scriptable, event-driven controller for window managers and compositors. The
daemon watches the events of a backend (workspace, focus, layout and output
changes), runs Rhai scripts or executables when events match the configuration,
and answers the requests of short-lived clients (`msx get`, `msx set`, ...).

The library under `src/` holds everything that decides or computes, with its
behaviour stated in contracts and proved by Verus. `app/` is the program `msx`
around it: sockets, files, processes, the Wayland connection and the timers.

| Module | What it holds |
| --- | --- |
| `value`, `json` | JSON values, and their text by way of `serde_json` |
| `text`, `names`, `keyed`, `environment`, `paths` | texts, sets and maps by name, file paths |
| `capability`, `event` | what a backend declares and emits |
| `config`, `config_file` | the configuration, and how it is read from TOML |
| `controller`, `control`, `cli` | scripts for events, requests and responses, the runtime directory and the lock, the command line |
| `engine` | the values that pass between Rhai scripts and the backend, and what scripts may write |
| `actor` | the task that owns a backend |
| `mock` | a simulated window manager |
| `hyprland` | the event stream, queries and dispatchers of Hyprland |
| `mangowc`, `compositor` | the state and the events of compositors based on dwl |
| `protocol`, `socket` | the JSON Lines protocol of bridges to other window managers |

Work that needs the outside is written as steps: a function of the library says
what to do next, the program does it and hands back what came of it. So
`Controller::handle_control` answers a request with the first step, and
`check_set` refuses a key that the manifest does not declare writable before the
backend is asked to write it.

What is believed without proof of `serde_json`, `toml`, `rhai`, `dirs` and a few
functions of the standard library stands in small functions marked
`external_body`, each with a comment that says what it claims.
