# ecobook

The verified core of the ecobook slide-deck and book-reader service.

`src/` is a Verus library: every function there carries a contract that
Verus proves. `app/` is the HTTP service around it (routes, MongoDB, file
storage, calls to the auth, payments and community services); it holds no
rule of its own and is not verified.

## Library modules

- `text` — white space, trimming, decimal notation and de-duplication of
  trimmed strings, specified over `Seq<char>`.
- `markdown` — the deck-document body grammar (`parse_markdown`).
- `deck_doc` — frontmatter splitting, the 1920x1080 layout of imported
  slides (`assemble_document`) and the export (`serialize_deck`).
- `round_trip` — the law that an exported deck reads back into the same
  slides.
- `slide_decks` — slugs, publishing rules, updates, the paywall preview,
  the public curriculum and the access decision.
- `book_sessions`, `editor_prefs`, `poll_votes` — reader sessions, editor
  preferences and poll tallies.
- `placements`, `author_image_assets`, `author_poll_templates` — where an
  author's images and poll templates are used, and pushing a template's
  style to its polls.
- `storage`, `peers` — upload checks, storage names and URLs, and the
  requests to other services with the reading of their answers.
- `reader_page` — the portrait reader page with the deck's slug filled in.
- `outside` — the calls into std, `serde_json` and `image` that the
  library names but does not compute.

## Tests

`tests/` runs the library on concrete documents, decks and requests.
