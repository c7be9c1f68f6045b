//! Verified core of the Ableton command palette: protocol model, catalog store,
//! ranking, workflow validation and the command-bar decision logic.

pub mod json;
pub mod protocol;
pub mod text;
pub mod platform;
pub mod settings;
pub mod daemon;
pub mod forwarding;
pub mod workflow;
pub mod sorting;
pub mod ranking;
pub mod tables;
pub mod store;
pub mod live_database;
pub mod paths;
pub mod command_bar;
pub mod palette;
pub mod client;
pub mod cli;
pub mod store_laws;
