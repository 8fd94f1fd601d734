# screen_grabbing_utility

A screen grabbing utility: capture a screen or a rectangle of it, annotate
the capture with lines, arrows, circles, rectangles and text, crop it, copy
it to the clipboard or save it, and drive it with global shortcuts that the
user can reassign.

- `src/` is the verified library (Verus): the shortcut table and its
  reassignment (`hotkeys`), the window state that the global shortcuts, the
  keyboard and the screen flow drive, with the confirmation asked before
  cutting over annotations (`first_window`), the undo/redo history of the
  annotation canvas (`pp_no_stroke`), the tool set of the stroke-width canvas
  (`post_processing`), text helpers (`text`) and the calls into the keyboard
  and hotkey crates (`keycodes`).
- `app/` is the egui application around it: windows, screen capture, image
  drawing and file dialogs.
- `tests/` runs the library on concrete values.
