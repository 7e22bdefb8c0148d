//! Editing engine of a small terminal text editor.
//!
//! The crate owns the in-memory document (an ordered sequence of lines),
//! the cursor and selection arithmetic, viewport scrolling, word-wise
//! navigation, the clipboard register, dirty-state tracking, and the modal
//! dispatcher that routes one keystroke at a time to those components.
//! Terminal I/O, painting and configuration loading live outside the crate
//! and talk to the engine through plain values only.

pub mod config;
pub mod dispatch;
pub mod editor;
pub mod keys;
pub mod laws;
pub mod text;
pub mod words;
