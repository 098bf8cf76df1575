# lazygitrs

The core of a terminal git client, written in Verus: every function in `src/` carries
a contract that Verus proves.

- `src/git/` — the git commands the client runs (as `GitCommand` values) and the parsers
  of their output: status, log, remotes, tags, worktrees, hunks.
- `src/model.rs`, `src/file_tree.rs`, `src/graph.rs` — the repository model, the file
  trees of the files and commit-files panels, and the commit graph.
- `src/pager/` — diffs: line and word diffs, the side-by-side rows, reading `git diff`
  output, the diff view's state (scrolling, hunks, search) and the notes left on diff lines.
- `src/popup.rs`, `src/picker.rs`, `src/ui.rs`, `src/scroll.rs` — the decisions of the
  popups (commit message editor and its wrapping, history, menus, checklists, ref picker,
  help), layout helpers and scrolling.
- `src/nav.rs`, `src/diff_keys.rs`, `src/help.rs`, `src/main_mouse.rs`,
  `src/compare_mouse.rs` — which layer a key goes to, what the universal keys and the
  focused diff panel's keys ask for, moving between panels, tabs and entries; the help
  popups; the mouse on the normal screen and in the compare view.
- `src/actions.rs`, `src/diff_request.rs`, `src/search.rs`, `src/undo.rs`,
  `src/copy_menu.rs` — what the panels' keys do, and which diff a selection shows.
- `src/config.rs`, `src/theme.rs`, `src/platform.rs`, `src/acp.rs` — persisted state,
  themes and their colors, clipboard and terminal-session commands, the agent protocol's decisions.
- `app/` — the command-line program: it runs the planned commands, reads and writes
  files, and prints what it loaded.
- `tests/` — tests of the library on concrete values.

Outside calls go through a few trusted wrappers (the `similar` diff algorithms,
`str::to_lowercase`, `String::push` and the clock); their contracts are stated in their
doc comments.
