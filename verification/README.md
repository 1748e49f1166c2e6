# agent_workbench

What a coding agent in an editor needs beside its conversation: sub-agents that work in
the background, canvases that show a rendered page in a tab, and a record of which
conversation opened which of these.

`src/` is the library. It is written in Verus: every function states what it does and is
proved to do it.

- `tools/`: the tools that spawn, list, await, message and cancel background sub-agents.
- `surface.rs`: providers of pane contents, and the surfaces that conversations recorded.
- `canvas_files.rs`, `canvas_shell.rs`, `canvas_document.rs`, `canvas_page.rs`,
  `canvas_view.rs`, `canvas_registry.rs`, `canvas_tools.rs`: the files, pages, tabs,
  registry and tools of canvases.
- `write_coordinator.rs`: one lock for each buffer, so that edits of one buffer wait for
  each other.
- `json.rs`, `text.rs`, `file_paths.rs`: JSON through `serde_json`, texts as sequences of
  characters, and paths compared by their components.

Functions named `law_...` state what holds across several functions. What is believed
without proof is marked `external_body`, `external_type_specification` or
`assume_specification`, with a comment that says what is claimed of which outside function.

`tests/` runs the library. `app/` runs it inside an editor: files, web views, timers, serde
and floating point.
