//! Jobs: status, logs, the job store and the engine's decisions.

pub mod code;
pub mod command;
pub mod drain;
pub mod engine;
pub mod file_log;
pub mod frame;
pub mod log;
pub mod plan;
pub mod status;
pub mod store;
pub mod stream;
