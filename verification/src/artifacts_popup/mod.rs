//! The popup that shows an artifact in full.

pub mod code;
pub mod content;
pub mod input;
pub mod json;
pub mod lines;
pub mod markdown;
pub mod math;
pub mod spans;
pub mod tables;
pub mod views;
