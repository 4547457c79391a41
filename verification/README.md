# Glossa

An offline, multi-edition dictionary: download a Wiktionary edition (a
kaikki.org Wiktextract dump) once, then look words up with no network access.

## Layout

- `src/` — the library, verified with Verus. Everything the program decides
  lives here, with contracts:
  - `catalog` — the installable editions and the language-name table.
  - `entry` — the dictionary entry model, its definite article, and the
    outline a result page shows of it.
  - `library` — which editions are installed (from the data directory's file
    names) and the persisted selection.
  - `db` — the normalized lookup key, the autocomplete key range, and which
    looked-up rows are kept.
  - `importer` — download progress, the import of a dump into batched rows
    with per-language counts, and install progress.
  - `search`, `palette` — the language switcher's options and initial choice;
    the command palette's matching.
  - `state`, `pages` — the window's state machine (`AppState::update`
    against the model `spec_update`), the effects it asks for, the command
    palette (`Ctrl+K`) and word search (`Ctrl+P`) overlays, which keys send
    which messages, and what the pages show.
  - `paths`, `text` — file names; string helpers.
- `app/` — the `iced` program: drawing, key events, SQLite (`rusqlite`),
  HTTP (`ureq`), gzip (`flate2`), JSON (`serde_json`), the data directory
  (`dirs`). It performs the effects the state machine asks for.
- `tests/` — tests of the library on concrete values.
