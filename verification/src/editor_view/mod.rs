//! The pane of the editor.

pub mod buffer;
pub mod looks;
pub mod pane;
pub mod spans;
