# weld

The verified core of a terminal side-by-side diff and merge tool.

- `src/` — the library, verified with Verus:
  - `io`: file contents, line-ending detection, loading text into lines and
    writing lines back (with the round-trip laws), home-directory shortening.
  - `viewport`, `model`, `app`: the view window, the diff data the tool
    works on, and the application state.
  - `input`: the key-input state machine (chords `gg` and `q!`, block
    navigation, saving, overlays); `input_laws` states what it guarantees.
  - `view`, `cells`, `overlay`, `layout`, `text`: what the two-pane view
    (the gutter and code cells of every row), the status line and the modals
    show, and where.
  - `session`: the pane labels and the report of saved files.
- `app/` — the terminal side: file I/O, key events, colors and drawing.
- `tests/` — tests of the library.
