//! Keystrokes, modes, and the engine's answers to the event loop.
//!
//! The dispatcher is defined over an abstract key code plus the
//! {shift, control} modifier set; decoding terminal events into this
//! shape happens outside the crate.

use vstd::prelude::*;

verus! {

/// An abstract key code.
#[derive(Clone, Copy, Debug)]
pub enum Key {
    Char(char),
    Enter,
    Backspace,
    Delete,
    Left,
    Right,
    Up,
    Down,
    Home,
    End,
    PageUp,
    PageDown,
    Esc,
}

/// One keystroke: a key code and the modifiers held with it.
#[derive(Clone, Copy, Debug)]
pub struct KeyInput {
    pub code: Key,
    pub shift: bool,
    pub control: bool,
}

/// Editing discipline within the editing state.
#[derive(Clone, Copy, Debug)]
pub enum InputMode {
    Normal,
    Insert,
}

/// What a pending save-confirmation prompt was opened for.
#[derive(Clone, Copy, Debug)]
pub enum PromptIntent {
    /// The user asked to exit; offer to save first.
    Exit,
    /// The user asked to quit; confirm discarding changes.
    Discard,
}

/// The top-level state of the session.
#[derive(Clone, Copy, Debug)]
pub enum ApplicationMode {
    Editing,
    Help,
    PromptSave { intent: PromptIntent },
}

/// What the event loop must do after a keystroke was handled.
///
/// The engine never touches the file system itself: when a save is due it
/// answers `Save`, the caller writes the serialized buffer and reports the
/// outcome back through `Editor::save_succeeded` or `Editor::save_failed`.
#[derive(Clone, Copy, Debug)]
pub enum Action {
    /// Keep the loop running.
    Continue,
    /// Leave the loop; the session is over.
    Exit,
    /// Write the serialized buffer to the current file; on success exit
    /// if `and_exit` is set.
    Save { and_exit: bool },
}

} // verus!
