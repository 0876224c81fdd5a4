//! What the command line decides: which tools a server mounts, and the steps of
//! the runtime demo.

pub mod demo;
pub mod mcp_config;
pub mod mount;
pub mod report;
