/// The line-oriented document: read, insert, delete, merge and split
/// operations, and the flat-text load and save forms.
pub mod buffer;
/// The editing modes and the mode-dependent column clamping rule.
pub mod cursor;
/// The editing session: the modal state machine over keystrokes.
pub mod editor;
/// The projection of the visible window onto terminal cells.
pub mod render;
