# Typst generation for office documents, verified

This crate turns a document model (pages, headers and footers, paragraphs,
runs, tables) into Typst source. Every generator is verified with Verus: its
contract states the exact text it appends, as a spec function over the model.

Lengths are integers in ten-thousandths of a point, so every number printed is
an exact decimal.

- `src/ir.rs` — the document model.
- `src/typst_text.rs` — numbers, colors, insets, strokes, escaping.
- `src/runs.rs` — runs of text: character properties, links, notes.
- `src/borders.rs`, `src/icons.rs` — cell borders, double-border overlays and
  conditional-format icons.
- `src/tables.rs` — `#table(..)` generation: spans, header blocks, cells,
  nested tables.
- `src/header_footer.rs` — header and footer lines, rules, pinned bands,
  framed paragraphs.
- `src/document.rs` — page setup, body content, caption lists, whole
  documents.
- `src/laws.rs` — properties that hold for every input.

What the model leaves out: lists, images (inline and floating), floating
text boxes and shapes, equations and charts have no block kind, so such
content cannot be represented; runs carry no tab stops, so a tab is written
as the character it is. Font metrics are not part of the model either: the
line boxes table cells take (one for rows without East Asian text, one for
rows with it) are resolved by the caller and handed in with the line grid's
pitch; a paragraph may carry a line box of its own; inside a spreadsheet
cell whose row declares its height the line box pins one line to the row
less the cell's padding.

The tests under `tests/` run the compiled generators on concrete documents.
