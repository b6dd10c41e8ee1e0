# uwu

The logic of a whiteboard application, verified with Verus: the undo
history; the pages of a board and the page changes of the application state;
the selection and the object operations on it (delete, duplicate, bring to
front, send to back, clear) with their undo steps; the history steps of the
object eraser and of the pixel eraser; the canvas file header and the validation
of stored pages; dark-mode detection on Linux desktops; file associations;
the single-instance messages; and the plugin admission checks.

- `src/` is the verified library. Each public function states its result in
  its contract; the `law_*` proof functions state what holds across calls.
- `tests/` runs the library on concrete values.
- `app/` is the program around it: settings, canvas files, commands and
  sockets, and the floating-point geometry of strokes and shapes, which the
  library leaves to it. The window and the renderer are not part of this
  build.
