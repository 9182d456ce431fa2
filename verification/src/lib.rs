//! Smart navigation across editor windows, panes, tabs and workspaces of a
//! terminal multiplexer, as verified decision logic.

pub mod json;
pub mod nav;
pub mod pattern;
pub mod process;
pub mod strip;
pub mod text;
