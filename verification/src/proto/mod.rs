//! Wire-protocol types: plain data, no behaviour beyond reading it.

pub mod capability;
pub mod discovery;
pub mod ids;
pub mod job;
pub mod session;
pub mod tier;
pub mod version;
