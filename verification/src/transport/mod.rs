//! The JSON-RPC surface of the runtime: envelopes, error codes, authentication
//! and what each method does to the runtime's state.

pub mod attach;
pub mod error;
pub mod handlers;
pub mod jsonrpc;
pub mod router;
pub mod state;
