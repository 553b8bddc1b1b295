# codekb_ingest

Verified decisions behind indexing a source tree into a code and document
knowledge base: which files are taken and as what, what is stored of each, which
phases a run takes, and how an interrupted run resumes. The library is written in
Verus; its contracts are proved, and the laws state what holds of every run and of
every walk.

## Layout

- `src/classify.rs`, `src/paths.rs`, `src/text.rs`: file classes by extension,
  paths as text with `/` between segments, strings as character sequences.
- `src/generated.rs`: generated files, by a marker in the first 4 KiB or by the
  `linguist-generated` attribute, whose globs are matched by `globset`.
- `src/notebook.rs`, `src/documents.rs`: the text of notebooks (`serde_json`),
  of word-processor documents, of PDFs and of spreadsheets.
- `src/store.rs`, `src/settings.rs`: statements, tables, row counts and the
  settings that a knowledge base is opened with.
- `src/tables.rs`: what the statements make of the tables, and its laws.
- `src/walk.rs`: the walk as a state machine. It is told what was found on disk
  and answers with what to fetch or store next. Its laws: `src/walk_laws.rs`.
- `src/ingest.rs`, `src/summary.rs`: a run as a state machine over its steps, and
  what it reports. Its laws: `src/run_laws.rs`, `src/run_order.rs` (the order of
  steps, and resuming) and `src/run_options.rs` (what options leave out).
- `app/`: the file system, the document decoders, the HeliosDB-Nano engine
  and the progress lines around the library.
- `tests/`: examples that run the library with the real crates.

What the library takes on trust of other crates stands in the contracts of its
`external_body` functions and `assume_specification` items; a comment above each
names the function that it speaks of.
