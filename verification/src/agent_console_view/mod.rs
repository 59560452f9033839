//! The agent chat: its transcript, its input box and its panes.

pub mod breather;
pub mod cache;
pub mod chat_input;
pub mod console;
pub mod footer;
pub mod highlights;
pub mod layout;
pub mod messages;
pub mod pane;
pub mod pane_table;
pub mod pane_thread;
pub mod rows;
pub mod stages;
pub mod thread;
pub mod thread_lines;
pub mod turns;
pub mod words;
