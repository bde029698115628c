# Illuminator

The document model and editing rules of a vector design tool (logos,
illustrations), verified with Verus.

- `src/` — the library. Documents with layers and nodes held in slot maps,
  undoable commands and the undo/redo history, the pen and text tools, the
  selection rules, how canvas drags start and what a finished drag, a
  pen path or a Text-tool click commits to the undo history, mirror
  symmetry, the parse of SVG bytes, the
  bookkeeping of the boolean operations (which shapes they take out and
  give back on undo), and the decisions behind SVG export.
  Floating-point values are carried as their IEEE-754 bit patterns; the
  library never computes with them.
- `app/` — a command-line front end: `.ilm` files (JSON through serde), SVG
  export (xmlwriter) and import (usvg), and the floating-point geometry
  (bounds, translation, ellipses, the view transform, the geometric
  commands).
- `tests/` — tests of the library.
