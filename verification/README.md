# rdit

A terminal text editor whose editing logic is verified with Verus.

- `src/iota/` is the editor: a gap buffer of bytes with named marks and an
  undo/redo log (`buffer`, `log`), text objects and how they are found
  (`textobject`), key maps and the modes built on them (`keymap`, `modes`),
  commands and the command prompt (`command`, `chained_command`, `overlay`),
  the screen grid and the view that draws a buffer on it (`uibuf`, `view`),
  the editor that ties keys to commands (`editor`), two lexers (`syntax`,
  `lexer`), and the decisions of the editor server's connections (`server`,
  `api`).
- `src/buffer.rs`, `src/cursor.rs`, `src/view.rs`, `src/keyboard.rs` and
  `src/rdit/` are a smaller line-based editor core: a buffer of lines, a
  cursor and a view that scrolls over them.
- `app/` is the program around the library: arguments, the terminal
  (rustbox), files, and the TCP server and its client.
- `tests/` holds the tests.
