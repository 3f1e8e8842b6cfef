# Spotter

A GTK application launcher for Linux whose core is written and proved in
Verus.

## Layout

- `src/` is the `spotter` library, verified by Verus:
  - `config`: defaults and the sanitizing that keeps every setting in range;
  - `history`: recent searches, trimmed, deduplicated ignoring case, newest
    first and bounded;
  - `search`: the index (deduplicated by kind and target), the match score,
    ranking, the AI-prompt and web-search items, and recent-search results;
  - `desktop`: `.desktop` entry parsing and the items for commands and files;
  - `readline`: Emacs-style editing keys and history browsing for the entry;
  - `platform`: window placement on a Sway workspace and the `swaymsg`
    command;
  - `ui`, `settings`, `tray`, `ai`: the decisions behind the interface, the
    settings window, the tray menu and the AI request;
  - `text`: string helpers and their specifications.
- `app/` is the program around it: GTK widgets, file and process I/O, the
  tray service, the HTTP request to the AI endpoint, and the serde copies of
  the configuration types that read and write `config.toml`.
- `tests/` runs the library on concrete inputs.
