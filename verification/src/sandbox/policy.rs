//! Backend-agnostic sandbox policy.

use vstd::prelude::*;

use crate::path::{paths_alike, same_paths};
use crate::proto::tier::EnforcementTier;
use crate::sandbox::error::{SandboxError, SandboxErrorView};
use crate::sandbox::fs_rules::{path_rules, policy_rules, rule_views, PathRule};
use crate::sandbox::seccomp::{deny_program, deny_set_prepared};
use crate::text::texts;

verus! {

/// What a sandboxed child may do. Paths are compared by their components.
#[derive(Debug, Eq)]
pub struct SandboxPolicy {
    /// The enforcement tier requested for this job.
    pub tier: EnforcementTier,
    /// Absolute paths whose subtrees the child may read.
    pub fs_read: Vec<String>,
    /// Absolute paths whose subtrees the child may write.
    pub fs_write: Vec<String>,
    /// Whether the child may spawn further processes.
    pub allow_proc_spawn: bool,
    /// Whether the child may create network sockets.
    pub allow_network: bool,
}

/// A policy, with its paths as sequences.
#[verifier::ext_equal]
pub struct PolicyView {
    pub tier: EnforcementTier,
    pub fs_read: Seq<Seq<char>>,
    pub fs_write: Seq<Seq<char>>,
    pub allow_proc_spawn: bool,
    pub allow_network: bool,
}

impl View for SandboxPolicy {
    type V = PolicyView;

    open spec fn view(&self) -> PolicyView {
        PolicyView {
            tier: self.tier,
            fs_read: texts(self.fs_read@),
            fs_write: texts(self.fs_write@),
            allow_proc_spawn: self.allow_proc_spawn,
            allow_network: self.allow_network,
        }
    }
}

impl PartialEq for SandboxPolicy {
    fn eq(&self, other: &Self) -> (r: bool) {
        self.tier == other.tier && self.allow_proc_spawn == other.allow_proc_spawn
            && self.allow_network == other.allow_network && same_paths(
            &self.fs_read,
            &other.fs_read,
        ) && same_paths(&self.fs_write, &other.fs_write)
    }
}

impl vstd::std_specs::cmp::PartialEqSpecImpl for SandboxPolicy {
    open spec fn obeys_eq_spec() -> bool {
        true
    }

    open spec fn eq_spec(&self, other: &Self) -> bool {
        &&& self.tier == other.tier
        &&& self.allow_proc_spawn == other.allow_proc_spawn
        &&& self.allow_network == other.allow_network
        &&& paths_alike(self@.fs_read, other@.fs_read)
        &&& paths_alike(self@.fs_write, other@.fs_write)
    }
}

impl Clone for SandboxPolicy {
    fn clone(&self) -> (r: Self)
        ensures
            r@ == self@,
    {
        let r = SandboxPolicy {
            tier: self.tier,
            fs_read: self.fs_read.clone(),
            fs_write: self.fs_write.clone(),
            allow_proc_spawn: self.allow_proc_spawn,
            allow_network: self.allow_network,
        };
        assert(r@.fs_read =~= self@.fs_read);
        assert(r@.fs_write =~= self@.fs_write);
        r
    }
}

/// How a policy is to be enforced on a child.
#[derive(Debug, Clone, Copy, PartialEq, Eq, Structural)]
pub enum Enforcement {
    /// Nothing is enforced.
    Nothing,
    /// The kernel confines the child to the paths of the policy and denies it
    /// the syscalls of the deny set.
    Kernel,
}

/// The enforcement of a tier, given whether the kernel supports Landlock. A
/// tier that cannot be enforced is a failure, never a silent downgrade.
pub open spec fn enforcement_of(tier: EnforcementTier, landlock: bool) -> Result<
    Enforcement,
    SandboxErrorView,
> {
    match tier {
        EnforcementTier::DevNone => Ok(Enforcement::Nothing),
        EnforcementTier::KernelLsm => if landlock {
            Ok(Enforcement::Kernel)
        } else {
            Err(
                SandboxErrorView::Unavailable {
                    tier,
                    reason: "Landlock not supported by this kernel"@,
                },
            )
        },
        _ => Err(
            SandboxErrorView::Unavailable {
                tier,
                reason: "tier not supported by the Linux backend"@,
            },
        ),
    }
}

/// What a child is confined with. Kernel enforcement holds both of its parts, so
/// neither is installed without the other.
#[derive(Debug, PartialEq, Eq)]
pub enum Confinement {
    /// Nothing is enforced.
    Nothing,
    /// The kernel enforces the policy.
    Kernel {
        /// The path rules, in the order in which they are added.
        rules: Vec<PathRule>,
        /// The compiled syscall filter.
        program: Vec<seccompiler::sock_filter>,
    },
}

/// Whether confining a child under a policy came to this, given whether the
/// kernel supports Landlock and the name of the architecture: what the tier asks
/// for, with the rules of the policy and the filter of the deny set where the
/// kernel enforces it.
pub open spec fn confined(
    policy: PolicyView,
    landlock: bool,
    arch_name: Seq<char>,
    r: Result<Confinement, SandboxError>,
) -> bool {
    match enforcement_of(policy.tier, landlock) {
        Err(refusal) => r matches Err(e) && e@ == refusal,
        Ok(Enforcement::Nothing) => r matches Ok(confinement) && confinement
            == Confinement::Nothing,
        Ok(Enforcement::Kernel) => match r {
            Ok(Confinement::Kernel { rules, program }) => {
                &&& rule_views(rules@) == policy_rules(policy)
                &&& deny_set_prepared(arch_name, Ok(program@))
            },
            Ok(Confinement::Nothing) => false,
            Err(e) => deny_set_prepared(arch_name, Err(e@)),
        },
    }
}

impl SandboxPolicy {
    /// Construct a policy from its parts.
    pub fn from_parts(
        tier: EnforcementTier,
        fs_read: Vec<String>,
        fs_write: Vec<String>,
        allow_proc_spawn: bool,
        allow_network: bool,
    ) -> (r: Self)
        ensures
            r.tier == tier,
            r.fs_read == fs_read,
            r.fs_write == fs_write,
            r.allow_proc_spawn == allow_proc_spawn,
            r.allow_network == allow_network,
    {
        SandboxPolicy { tier, fs_read, fs_write, allow_proc_spawn, allow_network }
    }

    /// A policy that enforces nothing.
    pub fn dev_none() -> (r: Self)
        ensures
            r.tier == EnforcementTier::DevNone,
            r.fs_read@ == Seq::<String>::empty(),
            r.fs_write@ == Seq::<String>::empty(),
            r.allow_proc_spawn,
            r.allow_network,
    {
        SandboxPolicy {
            tier: EnforcementTier::DevNone,
            fs_read: Vec::new(),
            fs_write: Vec::new(),
            allow_proc_spawn: true,
            allow_network: true,
        }
    }

    /// What a child is to be confined with before it is spawned, given whether
    /// the kernel supports Landlock and the name of the architecture that the
    /// child runs on.
    pub fn apply(&self, landlock: bool, arch_name: &str) -> (r: Result<Confinement, SandboxError>)
        ensures
            confined(self@, landlock, arch_name@, r),
    {
        match self.tier {
            EnforcementTier::DevNone => Ok(Confinement::Nothing),
            EnforcementTier::KernelLsm => {
                if !landlock {
                    return Err(
                        SandboxError::Unavailable {
                            tier: self.tier,
                            reason: "Landlock not supported by this kernel".to_owned(),
                        },
                    );
                }
                let rules = path_rules(self);
                match deny_program(arch_name) {
                    Ok(program) => Ok(Confinement::Kernel { rules, program }),
                    Err(e) => Err(e),
                }
            },
            _ => Err(
                SandboxError::Unavailable {
                    tier: self.tier,
                    reason: "tier not supported by the Linux backend".to_owned(),
                },
            ),
        }
    }
}

/// A tier is never silently downgraded: only the tier that promises nothing is
/// left unenforced; any other is enforced by the kernel, with the rules of the
/// policy and the filter of the deny set together, or refused.
pub proof fn tier_is_never_downgraded(
    policy: PolicyView,
    landlock: bool,
    arch_name: Seq<char>,
    r: Result<Confinement, SandboxError>,
)
    requires
        confined(policy, landlock, arch_name, r),
    ensures
        r == Ok::<Confinement, SandboxError>(Confinement::Nothing) <==> policy.tier
            == EnforcementTier::DevNone,
        !landlock && policy.tier != EnforcementTier::DevNone ==> r is Err,
        policy.tier != EnforcementTier::DevNone ==> (r matches Ok(confinement) ==> (confinement
            matches Confinement::Kernel { rules, program } && rule_views(rules@) == policy_rules(
            policy,
        ) && deny_set_prepared(arch_name, Ok(program@)))),
{
}

/// The kernel enforces exactly the kernel tier, and only where it supports
/// Landlock; a refusal names the tier that was asked for.
pub proof fn kernel_tier_needs_landlock(tier: EnforcementTier, landlock: bool)
    ensures
        enforcement_of(tier, landlock) == Ok::<Enforcement, SandboxErrorView>(Enforcement::Kernel)
            <==> tier == EnforcementTier::KernelLsm && landlock,
        enforcement_of(tier, landlock) == Ok::<Enforcement, SandboxErrorView>(Enforcement::Nothing)
            <==> tier == EnforcementTier::DevNone,
        enforcement_of(tier, landlock) matches Err(e) ==> (e matches SandboxErrorView::Unavailable {
            tier: named,
            reason: _,
        } && named == tier),
{
}

} // verus!
