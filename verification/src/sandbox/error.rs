//! Failures of the sandbox layer.

use vstd::prelude::*;
use vstd::string::*;

use crate::proto::tier::EnforcementTier;

verus! {

/// Failures of applying a sandbox policy.
#[derive(Debug, PartialEq, Eq)]
#[non_exhaustive]
pub enum SandboxError {
    /// The requested tier cannot be enforced on this host.
    Unavailable {
        /// The tier that was requested.
        tier: EnforcementTier,
        /// Why it cannot be enforced.
        reason: String,
    },
    /// The tier is available but applying the policy failed.
    Apply {
        /// What failed.
        reason: String,
    },
}

/// A sandbox failure, with its texts as sequences.
#[verifier::ext_equal]
pub enum SandboxErrorView {
    Unavailable { tier: EnforcementTier, reason: Seq<char> },
    Apply { reason: Seq<char> },
}

impl View for SandboxError {
    type V = SandboxErrorView;

    open spec fn view(&self) -> SandboxErrorView {
        match self {
            SandboxError::Unavailable { tier, reason } => SandboxErrorView::Unavailable {
                tier: *tier,
                reason: reason@,
            },
            SandboxError::Apply { reason } => SandboxErrorView::Apply { reason: reason@ },
        }
    }
}

impl Clone for SandboxError {
    fn clone(&self) -> (r: Self)
        ensures
            r == *self,
    {
        match self {
            SandboxError::Unavailable { tier, reason } => SandboxError::Unavailable {
                tier: *tier,
                reason: reason.clone(),
            },
            SandboxError::Apply { reason } => SandboxError::Apply { reason: reason.clone() },
        }
    }
}

/// The name of a tier as diagnostics print it.
pub open spec fn tier_name(tier: EnforcementTier) -> Seq<char> {
    match tier {
        EnforcementTier::KernelLsm => "KernelLsm"@,
        EnforcementTier::Container => "Container"@,
        EnforcementTier::ProcessToken => "ProcessToken"@,
        EnforcementTier::DevNone => "DevNone"@,
    }
}

/// The name of a tier as diagnostics print it.
pub fn tier_name_text(tier: EnforcementTier) -> (r: &'static str)
    ensures
        r@ == tier_name(tier),
{
    match tier {
        EnforcementTier::KernelLsm => "KernelLsm",
        EnforcementTier::Container => "Container",
        EnforcementTier::ProcessToken => "ProcessToken",
        EnforcementTier::DevNone => "DevNone",
    }
}

/// The message of a sandbox failure.
pub open spec fn sandbox_error_text(e: SandboxErrorView) -> Seq<char> {
    match e {
        SandboxErrorView::Unavailable { tier, reason } => "sandbox tier "@ + tier_name(tier)
            + " unavailable: "@ + reason,
        SandboxErrorView::Apply { reason } => "failed to apply sandbox: "@ + reason,
    }
}

impl SandboxError {
    /// The message of this failure.
    pub fn text(&self) -> (r: String)
        ensures
            r@ == sandbox_error_text(self@),
    {
        match self {
            SandboxError::Unavailable { tier, reason } => {
                let mut s = "sandbox tier ".to_owned();
                s.append(tier_name_text(*tier));
                s.append(" unavailable: ");
                s.append(reason.as_str());
                s
            },
            SandboxError::Apply { reason } => {
                let mut s = "failed to apply sandbox: ".to_owned();
                s.append(reason.as_str());
                s
            },
        }
    }
}

/// A tier goes by its own name, and two tiers by different ones.
pub proof fn tiers_go_by_their_own_names(a: EnforcementTier, b: EnforcementTier)
    ensures
        tier_name(a) == tier_name(b) ==> a == b,
        tier_name(a)[0] == 'K' <==> a == EnforcementTier::KernelLsm,
        tier_name(a)[0] == 'C' <==> a == EnforcementTier::Container,
        tier_name(a)[0] == 'P' <==> a == EnforcementTier::ProcessToken,
        tier_name(a)[0] == 'D' <==> a == EnforcementTier::DevNone,
{
    reveal_strlit("KernelLsm");
    reveal_strlit("Container");
    reveal_strlit("ProcessToken");
    reveal_strlit("DevNone");
    let (x, y) = (tier_name(a)[0], tier_name(b)[0]);
    assert(x == 'K' || x == 'C' || x == 'P' || x == 'D');
    assert(y == 'K' || y == 'C' || y == 'P' || y == 'D');
    assert(x == y ==> a == b);
}

} // verus!
