# herdr-pluck

An inline hint picker for Herdr panes. `herdr-pluck open` captures the visible
text of the panes of the current tab, replaces the tab's view with a temporary
layout in which the target pane runs the picker and every other pane shows a
mirror of itself, and lets the user pick a match by typing its hint: lowercase
copies it, an uppercase letter opens it.

Layout:

- `src/` is the library, verified with Verus: the hint input state machine and
  the picker session's response to each key, match finding, hint assignment,
  rendering to styled rows and to terminal commands, viewport wrapping, the
  recreation of the source tab's split tree and its conversion into the launch
  layout, and the decisions of opening a match. The
  steps that talk to Herdr (capture, launch, cleanup, zoom), to the launch
  support and to the opener go through verified wrappers that record each
  request with its answer, and are verified against that record: which
  requests are made, in what order, with what arguments, and how their answers
  decide the result. What Herdr, the file system and the opener do with those
  requests is outside what is proved, and so is where a split's boundary falls,
  which is computed from its floating-point ratio.
- `app/` is the binary: command-line parsing, the Herdr command-line client,
  the split-boundary test, snapshot files, the terminal session, and the system opener and clipboard.
- `tests/` exercises the library on concrete values.
