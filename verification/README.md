# silvapi

The logic of a desktop HTTP client's user interface, verified with Verus:
the request editor, the collection tree, the pickers and shortcuts of the
main window, and the handling of streamed responses.

## Layout

- `src/` — the verified library.
  - `models.rs` — requests, folders, collections, key/value entries, bodies, auth settings.
  - `text.rs`, `url.rs`, `sorting.rs` — character-level helpers, form decoding, query
    placeholders, ordering of names.
  - `request_panel.rs`, `editor.rs`, `rows.rs`, `variables.rs`, `body.rs`, `auth.rs` — the
    request editor: URL variables and path parameters, moving a request in and out of the
    editor, row editing, body and auth settings.
  - `tree.rs`, `collection_panel.rs`, `row_status.rs`, `curl.rs` — the collection tree: rows,
    keyboard movement, folder settings, row marks, copying a request as a `curl` command.
  - `app_view.rs`, `fonts.rs` — the main window: maximised panel, layout, API, theme and font
    pickers, keyboard shortcuts.
  - `streaming.rs` — batching a streamed body and keeping a short response history.
- `tests/` — tests of the library on concrete values.
- `app/` — what runs around the library: pumping a streamed body from a channel, the
  per-request records kept in hash maps, and the floating-point font size setting.

Contracts are stated over views (`Seq<char>` for strings) and spec functions; the public
`law_*` proof functions state properties that relate several operations.
