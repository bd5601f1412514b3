# terminal_input

The decisions of a terminal's command input, verified with Verus: how
arguments are quoted for the shell, which completion sources a request uses
and what a completion inserts, how command history is ordered for the
up-arrow menu and for autosuggestions, what each key press and edit does in
each suggestion mode, when a command may run and where a shared-session
request goes, and how a shared-session viewer orders the events it receives.

Layout:

- `src/` — the verified library. Each module states its contracts over
  mathematical models (`Seq`, `Map`, spec functions) and proves them.
  - `shell_quote` — quoting and the prompt-chip commands; the law that the
    shell reads a quoted argument back unchanged.
  - `completion` — completion sources, replacement spans, inserted text, tab
    and enter in the completions menu.
  - `history` — the up-arrow menu's order and deduplication, autosuggestion
    candidates, last-word insertion, the inline history query.
  - `input_state`, `suggestion_modes`, `key_handling`, `layout` — the
    suggestion modes and what keys, edits and results do to them.
  - `execution`, `expansion`, `prompt`, `decorations`, `inline_menu` —
    running commands, shell-widget handoffs, alias expansion, the prompt and
    subshell flag, syntax colouring and error underlining.
  - `shared_session`, `event_loop`, `terminal_events`, `remote_edits` — the
    shared-session side: roles, links, echo suppression, ordered event
    release and deferred remote edits.
- `tests/` — tests on concrete values, run against the compiled library.
- `app/` — glue that Verus does not see: serializable copies of library
  types and the shared remote-update guard.
