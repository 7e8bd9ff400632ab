# tuifw

The logic of a text user interface framework, with its behaviour stated in
contracts and proved with Verus.

- `src/` is the library. Each module keeps one part of the framework:
  geometry (`geom`), the window tree and its focus and keyboard routing
  (`tree`, `window`, `event`), layout of panels and docked views
  (`panels`, `dock_view`), decorators and their borders (`decorators`), the
  widgets (`widgets`, `input`, `text_edit`, `items`, `item_windows`,
  `scroll`), observable properties (`property`), the XAML registry, its
  built-in types and its preprocessor (`xaml`, `registry`, `xaml_values`,
  `xaml_walk`).
- Calls into outside crates (`unicode-width`, `xml`) and into parts of std
  that Verus does not specify stand behind small trusted wrappers, each with
  a doc comment saying what its contract claims.
- `tests/` runs the library on concrete values.
- `app/` holds what cannot be verified: the preprocessor's front end, which
  reads files and writes Rust source, the float arithmetic of the dock panel
  and of the float validator, and the main loop that drives the screen and
  the widgets around the library's focus and key-routing decisions.
