# clockify

A command-line client and terminal UI for the Clockify time tracker. The
decisions the program makes — reading dates and times, choosing date ranges
and approval windows, resolving projects, tasks, categories and ids from what
the user typed, merging edits into entries, adding up time per project,
paging through the API, classifying its refusals, and the state of the
terminal UI between key presses and fetches — live in a library verified
with Verus. The command, the HTTP client, the config file and the drawing of
the UI are ordinary Rust around it.

## Layout

- `src/` — the verified library:
  - `calendar.rs` dates as day numbers; `time.rs` reading and formatting
    points in time and durations; `text.rs` string helpers;
  - `models.rs` users, workspaces, projects, tasks and time entries;
  - `resolve.rs` picking items by id or name, id suffixes and references;
  - `config.rs` the configuration and the command context;
  - `api.rs` paging, refusals and request bodies;
  - `commands/` the decisions of each subcommand;
  - `tui/` key handling, forms, text input, the UI state and the layout
    of the log tab;
  - `sort.rs` stable sorting by key; `output.rs` the JSON shape of entries;
    `status_cache.rs` the clock the prompt cache is stamped with.
- `tests/` — tests of the library.
- `app/` — the `clockify` binary: argument parsing, HTTP, files, prompts,
  and drawing with ratatui.
