# Oxru

A small code editor for the terminal and the desktop, with its logic verified by
[Verus](https://github.com/verus-lang/verus).

* `src/` is the library: texts and their carets, undo, search and replace, the
  file tree and the fuzzy file dialog, tabs, dialogs and prompts, terminals,
  settings, the meaning of every key and what the mouse does. Every function
  states what it does, and Verus proves it. What is believed of other crates
  (`ropey`, `ignore`, `toml`) stands in a few items that say so.
* `app/` is the program around it: files and folders, shells, the clipboard, the
  screen and the window.
* `tests/` runs the library on examples.

The state of the editor is `app::App`. A key goes to `input::handle_key`, and the
mouse to the methods in `app::mouse`. Both change the state and say what is left
to do with the disk, the shells or the desktop; the program does that and hands
the outcome back. The laws that hold of the whole stand in functions whose names
begin with `law_`.
