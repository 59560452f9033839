//! What the widgets promise, said of what goes into them and of what comes out.

pub mod archives;
pub mod artifacts;
pub mod cards;
pub mod colors;
pub mod console;
pub mod counts;
pub mod details;
pub mod documents;
pub mod drawing;
pub mod editor;
pub mod entries;
pub mod graph;
pub mod input;
pub mod labels;
pub mod lists;
pub mod lookups;
pub mod marks;
pub mod markup;
pub mod panels;
pub mod parts;
pub mod popups;
pub mod rosters;
pub mod saved_runs;
pub mod shades;
pub mod status;
pub mod swarms;
pub mod tabs;
pub mod texts;
pub mod transcript;
pub mod views;
pub mod working;
pub mod wrapping;
