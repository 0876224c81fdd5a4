//! In-process execution of WebAssembly components for code jobs.

pub mod error;
pub mod machine;
pub mod runner;
