# legion_watch

The watch side of legion: it polls a shared board for signals, wakes the agents
of the repositories that they address, keeps track of the sessions it spawned,
and talks to work source plugins.

- `src/` is the library. Every function states what it returns or changes, and
  Verus proves it. The poll cycle, the submit confirmation and the reaper are
  machines: their phase says what is wanted next, and the caller hands back what
  came of it. Proof functions whose names begin with `law_` state what holds of
  the library as a whole.
- `app/` is ordinary Rust around it: files, processes, plugins, serialised
  forms, percentages and the loop. The store, the terminal layer and the
  pressure sampler are traits that the host program supplies.
- `tests/` runs the library on concrete values.

Outside crates are reached through a few trusted functions, each of which says
in its comment what it claims: `clock.rs` (chrono, uuid, sysinfo), `json.rs`
(serde_json), `tables.rs` and `toml_doc.rs` (toml), and the formatting of
strings in `nudge.rs` and `text.rs` (the standard library).
