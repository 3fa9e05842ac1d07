# Kanter

A node based texture editor. This crate holds its editing logic as a library
verified with Verus, and the application around it.

- `src/` is the library. Every function in it has a contract that Verus proves:
  - `undo` and `history`: the undo command manager (a queue of commands, the batch
    applied since the last checkpoint, and the undo and redo stacks) and the
    editor's history built on it;
  - `commands`: the editor's commands and how the manager treats each;
  - `scan_code`, `scan_code_input`, `hotkeys`: keys, the keyboard state of a frame,
    and what each key does;
  - `selection`, `mouse`, `workspace`, `edges`: selecting nodes, clicks and drags,
    connecting and removing edges and nodes;
  - `add_tool`, `node_edit`, `text`: adding nodes, editing their settings, and
    typing and reading lines;
  - `instructions`, `node`, `tool`, `graph`, `export`: what is shown, the kinds and
    states of nodes, the tools, the identifiers of the graph, and image export.
- `app/` is the Bevy application: it reads the mouse, the keyboard and the files,
  asks the library what to do, and applies the commands to the world and to the
  graph of `vismut_core`.
- `tests/` runs the library on concrete inputs.
