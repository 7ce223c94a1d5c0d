# pomolife

A Pomodoro timer for the terminal, with countdowns, a stopwatch, event
countdowns, themes, big ASCII digits, mouse zones, JSON-lines session and task
records, and statistics over the recorded sessions.

## Layout

- `src/` is the library, verified with Verus. Each public function states its
  result in its contract; the laws that relate several functions are public
  proof functions next to the functions they speak of:
  - `timer.rs`: the timer engine (Pomodoro cycles, countdowns, stopwatch,
    event countdowns) as a state machine over `EngineView`, with its laws.
  - `stats.rs`: the statistics over session records and the text report.
  - `config.rs`, `table.rs`, `profile.rs`: the configuration and its keys.
  - `ui.rs`, `view.rs`, `font.rs`, `theme.rs`: the interface state, what the
    screen shows as text, the digits and the colour themes.
  - `app.rs`: what each input and each tick of a session decides.
  - `cli.rs`, `storage.rs`, `text.rs`, `time.rs`, `clock.rs`: command-line
    values, JSON-lines framing, text helpers, moments and the clocks.
- `app/` is the program around the library: argument parsing, files, the
  terminal, notifications and sound.
- `tests/` runs the library on concrete values.
