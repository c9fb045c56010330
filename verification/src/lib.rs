//! F1RMA: the rules of a file manager with profiles, secure directories,
//! network sharing permissions and per-file annotations.

pub mod text;
pub mod paths;
pub mod naming;
pub mod keyed;
pub mod stamps;
pub mod navigation;
pub mod files;
pub mod network;
pub mod mcp;
pub mod ui;
