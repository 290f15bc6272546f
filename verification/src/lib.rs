//! Verified core of the masday MCP server.

pub mod text;
pub mod workflow;
pub mod lifecycle;
pub mod policy;
pub mod code_index;
pub mod lines;
pub mod fingerprint;
pub mod client;
pub mod config;
pub mod registry;
pub mod handler;
pub mod scaffold;
pub mod sync;
pub mod json;
pub mod readiness;
pub mod search;
pub mod capability;
pub mod timestamp;
pub mod database;
pub mod sqlite_store;
pub mod queries;
pub mod features;
pub mod schema;
pub mod agents;
pub mod diagnostics;
pub mod records;
