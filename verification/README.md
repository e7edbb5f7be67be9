# logo-designer

A desktop tool for designing logos with the fal.ai image models: the user
describes a logo, picks a drawing style, generates vector logos, evolves a chosen
one with a further prompt, and exports the files. Sessions, images, API logs and
the API key are kept in SQLite.

## Layout

- `src/` — the library, verified with Verus:
  - `text_spec.rs`, `strings.rs` — UTF-8/UTF-16 offsets, lines and string
    helpers, as spec functions with the executable code proved against them;
  - `graphemes.rs` — grapheme-cluster boundaries (`unicode-segmentation`) and
    the cursor moves built on them;
  - `text_input.rs` — the editing model of the multi-line text field
    (selection, IME marked text, mouse selection, clipboard, UTF-16 ranges);
  - `state.rs`, `workflow.rs` — the application state, and the decisions around
    a generation or an evolution (whether to start, with what, how its outcome
    changes the state);
  - `generation.rs` — endpoints, request values, reply checks, image and log
    records, data URIs;
  - `views.rs` — the text shown on the pages and export file names;
  - `text_laws.rs`, `state_laws.rs` — properties that relate several operations.
- `tests/` — tests of the library on concrete values.
- `app/` — the program around the library: the gpui window and text field,
  SQLite storage, HTTP requests, files, and colours.
