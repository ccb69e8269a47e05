# greycard_ui

The logic behind the panels of a raw photo editor's window, verified with
[Verus](https://github.com/verus-lang/verus): what each key, click and slider
does to the state, what the window then shows, and what is said of it.

- `src/naming.rs`: file and folder names made from patterns.
- `src/outline.rs`: rings joined from the crossings of a contour.
- `src/panel/`: one module a panel or a part of one. `model.rs` holds the edit
  and the window, `sliders.rs` their sliders one by one, `placeholder.rs` the
  desk that a frame is opened, culled and developed on, `floor.rs` what is kept
  beside the files as they come and go, and `browser.rs`, `selection.rs`,
  `filter.rs` and `meta.rs` the folder.
- `src/paths.rs`: paths, part by part.
- `src/text.rs`: what the rest needs of text.
- `app/`: the command line, files and floating point around the library.
- `tests/`: scenarios run on the compiled library.

Numbers of single precision are carried by their bits where they are held to
bounds (`panel/level.rs`), and by a type parameter where they are only passed
on. Decisions are functions from state and event to next state and action; what
a decision needs from a file, a thread or the window is an argument.

Proof functions without a `lemma_` in front state what holds of several
functions at once.
