# knapsack

The logic of Knapsack, a small desktop password manager, as a library verified with Verus.

- `src/text.rs` — character-level text operations (`replace_all` and the lemmas about it).
- `src/sql.rs` — deciding what saving or changing a credential does, and the statements that do it.
- `src/rows.rs` — how stored credentials are laid out as rows, and the label/delete statement of each row.
- `src/backup.rs` — writing the XML backup, and reading one back (parsing goes through `xmltree`).
- `src/generator.rs` — random password generation (drawing goes through `rand`).
- `src/laws.rs` — round-trip properties that relate several functions.
- `app/main.rs` — the window (fltk), the SQLite database, the clipboard and the files.
