# Alexandria Nexus

The logic of a bibliography and knowledge engine, verified with Verus: every
function in `src/` carries a contract that Verus proves, except five small
wrappers around outside code whose contracts are trusted, not proved:

- `text::push_char` (`String::push`), `text::to_lowercase`
  (`str::to_lowercase`) and `text::is_alphanumeric` (`char::is_alphanumeric`);
- `import::record_len` and `import::record_get` (`csv::StringRecord::len`
  and `csv::StringRecord::get`), together with the declaration of the type
  `csv::StringRecord`.

Each says in its doc comment what its contract claims of the outside code.

## Layout

- `src/` — the verified library.
  - `text`, `numeric`, `keymap`: character sequences, decimal numbers,
    text-keyed maps and sets.
  - `csv_parsing`, `pages`: reading bibkeys, dates, author lists and page
    ranges from tabular files; start pages, volumes and numbers.
  - `latex_citations`, `latex_columns`: finding and resolving `\cite`
    commands, and the conversion of LaTeX columns.
  - `render`: the HTML bibliography (components, entries by type, contexts,
    the render request).
  - `validation`, `dto`, `domain`: request bodies, their checks, the stored
    records.
  - `import`, `bibitem_import`, `full_import`: importing entities, bibitems
    given with ids, and whole bibliographies given with names.
  - `export`, `bibitem_export`: exports as rows, CSV and BibTeX.
  - `search`, `queries`, `expand`, `keyword_tree`, `maintenance`,
    `transitive_closure`, `config`.
- `tests/` — tests of the library.
- `app/` — the server around the library: settings from the environment,
  the database, HTTP handlers, and the orchestration of the steps that read
  and write.
