# spectatui

A terminal dashboard for GitHub Spec-Kit projects. The library under `src/` is
written in Verus: every function carries a `requires`/`ensures` contract that
Verus proves, and the public proof functions state the laws the dashboard keeps.

## Layout

- `src/text.rs`: character-level text helpers and their specifications.
- `src/layout.rs`, `src/views.rs`: pane layouts, sizes and the arithmetic of
  splitting the screen.
- `src/registry.rs`, `src/speckit.rs`, `src/workflow.rs`, `src/watch.rs`:
  the project model: installed extensions, presets, integrations and
  workflows; features and their workflow stage; file-watcher events.
- `src/cli.rs`, `src/tmux.rs`: the `specify` command lines the dashboard runs
  and the tmux sessions it follows.
- `src/theme.rs`, `src/config.rs`: palettes, accents and stored settings.
- `src/app.rs`, `src/keys.rs`, `src/popup_keys.rs`, `src/screen_keys.rs`,
  `src/input.rs`: the dashboard's state and how each key press or click
  changes it, as a function from state and event to next state and effect.
- `src/app_laws.rs`: laws over several of those functions.
- `app/`: the program around the library: terminal, drawing, files, network,
  child processes and tmux.
- `tests/`: tests of the library on concrete values.
