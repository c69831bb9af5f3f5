# future_work

Four small desktop tools that share one verified library:

- `current` — a daemon that editors tell which file and caret they attend
  to, keyed by process id, and a command line that asks it about the
  focused window (`current attention`, `current location`).
- `purse` — a floating tray of files and text snippets: files arrive on its
  socket, on the command line or by drag and drop; Enter opens the selected
  ones, a click dismisses one.
- `purse-niri` — finds the Purse on the focused niri workspace, or starts
  one, and prints its pid.
- `gluek-up` — peeks at the definitions or references of the symbol under
  the caret, as `lsp-broker` reports them.

## Layout

- `src/` — the library, verified with Verus: the state and rules of each
  tool, with contracts over mathematical models and proved laws.
  - `text`, `paths`, `json`, `context` — shared models and helpers.
  - `current` — the context cache: publish, prune, query, and the client's
    output.
  - `niri` — reading niri's replies and choosing where files go.
  - `purse::{state, ipc, preview, thumbnailer, dispatch}` — the tray's item
    list, its socket protocol, previews, the thumbnail cache and opening
    files.
  - `gluek` — the `lsp-broker` protocol, reading locations, and the match
    list.
- `app/` — the programs: sockets, processes, D-Bus, serde and GTK around the
  library. One binary; the name it runs under picks the tool.
- `tests/` — tests of the library on concrete values.
