//! Sandbox policies and the decisions that enforce them.

pub mod error;
pub mod fs_rules;
pub mod policy;
pub mod probe;
pub mod seccomp;
