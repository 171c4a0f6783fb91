# threadhop_tui

The logic of a terminal browser for session transcripts, verified with Verus.

- `src/keys.rs`: key events and the tables that bind them to commands.
- `src/state.rs`, `src/app.rs`: the application as a state machine. Keys and
  the mouse go in; what it asks of the world gathers as requests
  (`src/effects.rs`), and `src/answers.rs` takes the answers.
- `src/event.rs`: what the workers and the terminal report.
- `src/screens/`: the modals and how each screen is laid out.
- `src/cli/`: the subcommands `peek`, `search`, `handoff` and `receive`.
- `src/conflicts.rs`, `src/bookmarks.rs`, `src/digest.rs`, `src/clipboard.rs`,
  `src/config.rs`: the rules behind them.
- `src/ui.rs`, `src/text.rs`, `src/models.rs`, `src/anim.rs`: what all of it is
  made of.
- `src/laws.rs`: what holds of the application as a whole. Laws about one part
  stand beside it.
- `app/`: the program round the library: the terminal, files, the database.
- `tests/`: tests of the library.
