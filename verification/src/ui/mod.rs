//! The state of the panels and the rules behind what they show.

pub mod main_panel;
pub mod footer;
pub mod tree_panel;
pub mod header;
pub mod network_panel;
pub mod preview_panel;
