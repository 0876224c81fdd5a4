//! A verified agent-execution runtime: sessions, capability grants, discovery,
//! jobs with replayable logs, and the decisions of the transport around them.

pub mod auth;
pub mod builtins;
pub mod capability;
pub mod catalog_provider;
pub mod cli;
pub mod client;
pub mod codemode;
pub mod error;
pub mod exposure;
pub mod job;
pub mod json;
pub mod mcp;
pub mod octets;
pub mod path;
pub mod proto;
pub mod provider;
pub mod registry;
pub mod sandbox;
pub mod session;
pub mod text;
pub mod textmap;
pub mod time;
pub mod transport;
pub mod workspace;
