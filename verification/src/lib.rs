//! Terminal widgets of an agent workbench: what every pane shows, as plain values.

pub mod agent_console_view;
pub mod agent_ops_view;
pub mod artifacts_history_popup;
pub mod artifacts_popup;
pub mod assumptions_view;
pub mod blocks;
pub mod bottom_bar;
pub mod claims_view;
pub mod clone_labels;
pub mod columns;
pub mod counting;
pub mod definition_popup;
pub mod editor_view;
pub mod file_tree_view;
pub mod fit;
pub mod frames;
pub mod fuzzy_search_popup;
pub mod games_analysis_popup;
pub mod geometry;
pub mod laws;
pub mod order;
pub mod overlays;
pub mod paths;
pub mod previews;
pub mod runs;
pub mod state;
pub mod style;
pub mod table_cells;
pub mod text;
pub mod wrap;
