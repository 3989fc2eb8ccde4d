# windui widgets, verified

The logic of two `windui` widgets — the dropdown selector and the rich-text
view — as a Verus library, with the host glue around it.

- `src/` (verified):
  - `select.rs` — dropdown: option sources, the current option (selection
    clamped into the list), the badge of the current item, popup entries,
    natural size from measured widths, paint geometry and colours, and the
    event state machine.
  - `rich.rs` — the document model: span styles and their merge rule, spans,
    paragraphs, dividers, collapsible sections, and the table of named styles.
  - `text.rs` — cutting span text into unbreakable pieces (Latin words,
    whitespace runs, single CJK characters, line feeds); the cut is unique.
  - `layout/` — resolving a span's style, cutting a paragraph into pieces
    (disclosure arrow first, chips whole), greedy line breaking with its laws,
    the layout flow of a document under the sections' collapse states, vertical
    stacking of blocks in closed form, and the cache key of a layout and when
    it must be made again.
  - `richtext.rs` — header hit-testing, hover and press tracking, keyboard
    focus among headers, and the
    snapshot of collapse states the layout uses.
  - `signal.rs`, `geometry.rs`, `theme.rs`, `event.rs` — shared cells, integer
    geometry, palette roles and input events.
- `app/` — measurement and drawing back-ends, font metrics and baseline
  alignment (fractional), theme colours, and the two widgets built on the
  library.
- `tests/` — scenarios and concrete values of the laws.
