# texsift

Filters a LaTeX/latexmk build log down to its diagnostics, grouped under
the file each one occurred in, with pass separators, PDF confirmations and
an optional summary footer.

Layout:

- `src/text.rs` — character-level helpers (prefix tests, searching,
  trimming, number parsing, splitting) with their meaning as spec functions.
- `src/model/` — the events the parser produces and the renderer consumes,
  with their mathematical views.
- `src/parser/` — the pipeline: `line_joiner` rejoins lines TeX wrapped at
  79/80 columns, `file_stack` follows `(file` / `)` opens and closes,
  `patterns` and `message` recognise diagnostics (a state machine over
  logical lines), and `mod.rs` coordinates them into events.
- `src/output/` — `wrap` (word wrapping) and `colored` (the renderer, which
  lays out text segments and paints them through the `colored` crate).
- `src/filter.rs` — `--no-warn` / `--no-boxes` filtering, width resolution,
  and feeding parsed events to the renderer.
- `app/main.rs` — the command line: argument parsing, reading the log
  (file or stdin) line by line, terminal-width detection, writing output.

Every executable function in `src/` carries a contract proved by Verus,
except five trusted wrappers whose contracts are assumed, not proved: the
ones around `String::push` and `char::is_alphanumeric` (whose result is
named by the uninterpreted `char_alphanumeric`), and the three calls into
the `colored` crate (`paint_fg_text`, `paint_bold_text`,
`force_color_override`). The laws the library keeps (what joining
preserves, how messages are grouped and counted, what the filters hide)
are stated as `law_*` proof functions beside the code they are about.
