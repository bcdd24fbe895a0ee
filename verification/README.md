# auxm

The core of a local-first library browser for PDF books and image-folder books,
written in Verus.  The functions in `src/` carry contracts and are proved, except the
small trusted wrappers around calls into std, `serde_json` and `image`, whose
contracts are stated but not proved (each says in its doc comment what it claims).

- `src/scanner` decides, from directory listings and file metadata, what is a PDF
  book, an image-folder book or a category, reuses stored measurements of unchanged
  books, and computes folder signatures.
- `src/service/database.rs` computes what must change in the database after a scan
  (with parents inserted before children and children deleted before parents), the
  category tree and the descendants of a category; `src/service/sync.rs` plans each
  inserted row and writes the change report; `src/service/resync.rs` proves that a
  database left by a synchronisation needs no change when the same scan is synced
  again.
- `src/service/assets.rs` names the cached covers, page previews and SVG pages.
- `src/config.rs` and `src/handlers` hold the configuration rules and the shape of the
  API responses.

`app/` is the program around it: the HTTP server, the SQLite database, file-system
walking, image and PDF rendering.
