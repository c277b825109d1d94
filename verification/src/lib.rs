//! Verified core of the Twine Git collaboration server.

pub mod access;
pub mod assoc;
pub mod catalog;
pub mod config;
pub mod indexer;
pub mod metadata;
pub mod paths;
pub mod protocol;
pub mod reader;
pub mod server_config;
pub mod text;
