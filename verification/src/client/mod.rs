//! The client side of the runtime's HTTP surface: where requests go, how replies
//! are judged, and how an event stream is cut into log frames.

pub mod attached;
pub mod error;
pub mod rpc;
pub mod sse;
pub mod url;
