//! The operations pane: roster, missions, task graph, artifacts, connections, alerts and
//! diagnostics.

pub mod glyphs;
pub mod alerts;
pub mod archive;
pub mod artifacts;
pub mod artifacts_styled;
pub mod card_places;
pub mod cards;
pub mod context_cards;
pub mod dag;
pub mod dag_styled;
pub mod diagnostics;
pub mod grouping;
pub mod history;
pub mod mcp;
pub mod missions;
pub mod pane;
pub mod popup;
pub mod provenance;
pub mod roster;
pub mod roster_lines;
pub mod roster_styled;
pub mod saved_cards;
pub mod segments;
pub mod styles;
pub mod swarm_details;
pub mod tabs;
