//! Protocol version.

use vstd::prelude::*;

verus! {

/// The version of the wire protocol that these types describe.
pub const PROTOCOL_VERSION: &'static str = "0.0.0";

} // verus!
