# nucleo_picker

A fuzzy picker for the terminal: items are matched by `nucleo`, and the picker's own logic is
verified with Verus.

## Layout

- `src/` is the verified library:
  - `prompt`, `lazy`, `editable`, `component`, `term/editable`: editing the query line, grapheme
    by grapheme, and buffering consecutive edits;
  - `match_list`, `incremental`, `term/matcher`: laying out items of several lines on the screen
    around the selection, and the queue of selected items;
  - `term/unicode`, `term/span`, `segment`: widths, truncation and highlighted spans of rendered
    items, and what to print of each line;
  - `event`, `picker`, `frame`: key bindings, what each event does to a running picker, and which
    parts of the screen a frame redraws.

  Grapheme segmentation and column widths come from `unicode-segmentation` and `unicode-width`,
  behind a few trusted wrappers in `segment`.
- `app/` is the terminal program around the library: the event loop, the terminal session and
  the drawing with `crossterm`, and the items matched by `nucleo`.
- `tests/` runs the library on concrete values.
