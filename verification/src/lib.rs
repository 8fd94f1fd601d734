//! Verified core of a screen grabbing utility: shortcut bookkeeping, the
//! hotkey state machine of the main window, the text scanning that turns
//! keyboard state into shortcut names, and the undo/redo history of the
//! annotation canvas.
pub mod first_window;
pub mod hotkeys;
pub mod keycodes;
pub mod post_processing;
pub mod pp_no_stroke;
pub mod text;
