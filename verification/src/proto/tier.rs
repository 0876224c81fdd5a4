//! Sandbox enforcement tier.

use vstd::prelude::*;

verus! {

/// The sandbox enforcement guarantee a session runs under.
///
/// A session declares its tier, so a client knows the guarantee it is getting
/// and can refuse to run sensitive work under a weaker one.
#[derive(Debug, Clone, Copy, PartialEq, Eq, Structural)]
pub enum EnforcementTier {
    /// Kernel-enforced isolation through a security module.
    KernelLsm,
    /// Container or namespace isolation.
    Container,
    /// Restricted process-token isolation.
    ProcessToken,
    /// No enforcement: development only.
    DevNone,
}

} // verus!
