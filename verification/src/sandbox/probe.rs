//! Landlock availability detection.

use landlock::{Access, Compatible, RulesetAttr};
use vstd::prelude::*;

use crate::sandbox::fs_rules::{READ_RIGHTS, WRITE_RIGHTS};

verus! {

/// What becomes of rights that a kernel does not support.
#[derive(Debug, Clone, Copy, PartialEq, Eq, Structural)]
pub enum Requirement {
    /// They are left out.
    BestEffort,
    /// The whole ruleset is left out.
    SoftRequirement,
    /// They are a failure.
    HardRequirement,
}

/// Whether some attempt to make a ruleset over these rights under this
/// requirement came to this: it was made, or what `landlock` said. Bits that are
/// no filesystem right do not count. The running kernel decides, so one attempt
/// may come to something else than another.
pub uninterp spec fn ruleset_tried(
    requirement: Requirement,
    rights: u64,
    made: Result<(), Seq<char>>,
) -> bool;

/// What an attempt came to, with what was said as a sequence.
pub open spec fn attempt(made: Result<(), String>) -> Result<(), Seq<char>> {
    match made {
        Ok(_) => Ok(()),
        Err(message) => Err(message@),
    }
}

/// `landlock::AccessFs::from_all` at the first ABI: the read and the write
/// rights.
#[verifier::external_body]
fn all_rights() -> (bits: u64)
    ensures
        bits == READ_RIGHTS | WRITE_RIGHTS,
{
    landlock::AccessFs::from_all(landlock::ABI::V1).bits()
}

/// `landlock::Ruleset::create` over these rights under this requirement: what
/// the running kernel makes of it. Which it is belongs to the machine, so only
/// what was asked for is tied to the answer.
#[verifier::external_body]
fn try_ruleset(requirement: Requirement, rights: u64) -> (made: Result<(), String>)
    ensures
        ruleset_tried(requirement, rights, attempt(made)),
{
    let level = match requirement {
        Requirement::BestEffort => landlock::CompatLevel::BestEffort,
        Requirement::SoftRequirement => landlock::CompatLevel::SoftRequirement,
        Requirement::HardRequirement => landlock::CompatLevel::HardRequirement,
    };
    landlock::Ruleset::default()
        .set_compatibility(level)
        .handle_access(landlock::BitFlags::<landlock::AccessFs>::from_bits_truncate(rights))
        .and_then(|r| r.create())
        .map(|_| ())
        .map_err(|e| e.to_string())
}

/// Whether the running kernel supports the Landlock floor that kernel
/// enforcement needs: whether it makes a ruleset over all the rights that path
/// rules give, with none of them left out. The process itself is not confined by asking.
pub fn landlock_available() -> (r: bool)
    ensures
        exists|made: Result<(), Seq<char>>| #[trigger]
            ruleset_tried(Requirement::HardRequirement, READ_RIGHTS | WRITE_RIGHTS, made) && r
                == (made is Ok),
{
    let made = try_ruleset(Requirement::HardRequirement, all_rights());
    assert(ruleset_tried(
        Requirement::HardRequirement,
        READ_RIGHTS | WRITE_RIGHTS,
        attempt(made),
    ));
    made.is_ok()
}

} // verus!
