//! Landlock filesystem rules: which paths a child gets, and with which rights.

use vstd::prelude::*;
use vstd::string::*;

use crate::sandbox::error::{SandboxError, SandboxErrorView};
use crate::sandbox::policy::{PolicyView, SandboxPolicy};
use crate::text::{concat_text, texts};

verus! {

/// `landlock::AccessFs::from_read` at the first ABI: the bits of execute (1),
/// read file (4) and read directory (8).
#[verifier::external_body]
pub(crate) fn read_rights() -> (bits: u64)
    ensures
        bits == READ_RIGHTS,
{
    landlock::AccessFs::from_read(landlock::ABI::V1).bits()
}

/// `landlock::AccessFs::from_write` at the first ABI: the bits of write file (2)
/// and of the nine rights to remove and make entries, 16 to 4096.
#[verifier::external_body]
pub(crate) fn write_rights() -> (bits: u64)
    ensures
        bits == WRITE_RIGHTS,
{
    landlock::AccessFs::from_write(landlock::ABI::V1).bits()
}

/// The bits of the read rights.
pub const READ_RIGHTS: u64 = 0xd;

/// The bits of the write rights.
pub const WRITE_RIGHTS: u64 = 0x1ff2;

/// The bits of the rights that apply to a file: execute, read and write.
pub const FILE_RIGHTS: u64 = 0x7;

/// One path rule of a ruleset.
#[derive(Debug, PartialEq, Eq)]
pub struct PathRule {
    /// The path whose subtree the rule opens.
    pub path: String,
    /// The rights, as bits.
    pub rights: u64,
    /// Whether a path that cannot be opened is a failure; otherwise the rule
    /// is skipped.
    pub required: bool,
}

/// A path rule, with its path as a sequence.
#[verifier::ext_equal]
pub struct RuleView {
    pub path: Seq<char>,
    pub rights: u64,
    pub required: bool,
}

impl View for PathRule {
    type V = RuleView;

    open spec fn view(&self) -> RuleView {
        RuleView { path: self.path@, rights: self.rights, required: self.required }
    }
}

/// The rules of a list.
pub open spec fn rule_views(rules: Seq<PathRule>) -> Seq<RuleView> {
    Seq::new(rules.len(), |i: int| rules[i]@)
}

/// System paths that programs need to load and run; those that a host lacks are
/// skipped.
pub open spec fn baseline_paths() -> Seq<Seq<char>> {
    seq![
        "/usr"@,
        "/bin"@,
        "/sbin"@,
        "/lib"@,
        "/lib64"@,
        "/etc"@,
        "/dev/null"@,
        "/dev/zero"@,
        "/dev/urandom"@,
        "/proc"@,
    ]
}

/// The rules that open a list of paths with the same rights.
pub open spec fn rules_for(paths: Seq<Seq<char>>, rights: u64, required: bool) -> Seq<RuleView> {
    Seq::new(paths.len(), |i: int| RuleView { path: paths[i], rights, required })
}

/// The rules of a policy, in the order in which they are added: the baseline,
/// then the readable paths, then the writable paths. Reading and writing are
/// opened separately.
pub open spec fn policy_rules(policy: PolicyView) -> Seq<RuleView> {
    rules_for(baseline_paths(), READ_RIGHTS, false) + rules_for(policy.fs_read, READ_RIGHTS, true)
        + rules_for(policy.fs_write, WRITE_RIGHTS, true)
}

/// The baseline system paths.
pub fn baseline_read_paths() -> (r: Vec<String>)
    ensures
        texts(r@) == baseline_paths(),
{
    let r: Vec<String> = vec![
        "/usr".to_owned(),
        "/bin".to_owned(),
        "/sbin".to_owned(),
        "/lib".to_owned(),
        "/lib64".to_owned(),
        "/etc".to_owned(),
        "/dev/null".to_owned(),
        "/dev/zero".to_owned(),
        "/dev/urandom".to_owned(),
        "/proc".to_owned(),
    ];
    assert(texts(r@) =~= baseline_paths());
    r
}

fn add_rules(rules: &mut Vec<PathRule>, paths: &Vec<String>, rights: u64, required: bool)
    ensures
        rule_views(final(rules)@) == rule_views(old(rules)@) + rules_for(
            texts(paths@),
            rights,
            required,
        ),
{
    let ghost start = rule_views(rules@);
    let ghost all = rules_for(texts(paths@), rights, required);
    let mut i: usize = 0;
    assert(rule_views(rules@) =~= start + all.take(0));
    while i < paths.len()
        invariant
            i <= paths@.len(),
            all == rules_for(texts(paths@), rights, required),
            rule_views(rules@) == start + all.take(i as int),
        decreases paths@.len() - i,
    {
        let ghost before = rule_views(rules@);
        rules.push(PathRule { path: paths[i].clone(), rights, required });
        proof {
            assert(rule_views(rules@) =~= before.push(all[i as int]));
            assert(rule_views(rules@) =~= start + all.take(i + 1));
        }
        i = i + 1;
    }
    assert(all.take(paths@.len() as int) =~= all);
}

/// The rules of a policy, in the order in which they are added.
pub fn path_rules(policy: &SandboxPolicy) -> (r: Vec<PathRule>)
    ensures
        rule_views(r@) == policy_rules(policy@),
{
    let baseline = baseline_read_paths();
    let mut rules: Vec<PathRule> = Vec::new();
    assert(rule_views(rules@) =~= Seq::empty());
    add_rules(&mut rules, &baseline, read_rights(), false);
    add_rules(&mut rules, &policy.fs_read, read_rights(), true);
    add_rules(&mut rules, &policy.fs_write, write_rights(), true);
    assert(rule_views(rules@) =~= policy_rules(policy@));
    rules
}

/// What happens with one rule once its path was tried.
#[derive(Debug, PartialEq, Eq)]
pub enum RuleStep {
    /// The rule is left out.
    Skip,
    /// The rule is added with these rights.
    Add {
        /// The rights, as bits.
        rights: u64,
    },
}

/// The rights that a rule gets on a path: all of them on a directory, those that
/// apply to files otherwise.
pub open spec fn effective(rights: u64, is_dir: bool) -> u64 {
    if is_dir {
        rights
    } else {
        rights & FILE_RIGHTS
    }
}

/// What happens with a rule whose path was opened, with whether it is a
/// directory, or could not be opened, with the message of the failure.
pub open spec fn rule_step(rule: RuleView, opened: Result<bool, Seq<char>>) -> Result<
    RuleStep,
    SandboxErrorView,
> {
    match opened {
        Ok(is_dir) => Ok(RuleStep::Add { rights: effective(rule.rights, is_dir) }),
        Err(message) => if rule.required {
            Err(
                SandboxErrorView::Apply {
                    reason: "cannot open granted path "@ + rule.path + " for landlock: "@ + message,
                },
            )
        } else {
            Ok(RuleStep::Skip)
        },
    }
}

/// Decide on a rule: a required path that cannot be opened is a failure, a
/// baseline path is then skipped, and rights that no file takes are left out.
pub fn add_path_rule(rule: &PathRule, opened: Result<bool, String>) -> (r: Result<
    RuleStep,
    SandboxError,
>)
    ensures
        ({
            let seen: Result<bool, Seq<char>> = match opened {
                Ok(is_dir) => Ok(is_dir),
                Err(message) => Err(message@),
            };
            match r {
                Ok(step) => rule_step(rule@, seen) == Ok::<RuleStep, SandboxErrorView>(step),
                Err(e) => rule_step(rule@, seen) == Err::<RuleStep, SandboxErrorView>(e@),
            }
        }),
{
    match opened {
        Ok(is_dir) => {
            if is_dir {
                Ok(RuleStep::Add { rights: rule.rights })
            } else {
                Ok(RuleStep::Add { rights: rule.rights & FILE_RIGHTS })
            }
        },
        Err(message) => {
            if rule.required {
                let mut reason = concat_text("cannot open granted path ", rule.path.as_str());
                reason.append(" for landlock: ");
                reason.append(message.as_str());
                Err(SandboxError::Apply { reason })
            } else {
                Ok(RuleStep::Skip)
            }
        },
    }
}

/// Fitting the rights to a path never adds a right.
pub proof fn fitting_rights_never_widens(rights: u64, is_dir: bool)
    ensures
        effective(rights, is_dir) & !rights == 0,
{
    assert(rights & !rights == 0) by (bit_vector);
    assert((rights & 0x7) & !rights == 0) by (bit_vector);
}

/// Reading and writing share no right.
pub proof fn read_and_write_rights_are_disjoint()
    ensures
        READ_RIGHTS & WRITE_RIGHTS == 0,
{
    assert(0xdu64 & 0x1ff2u64 == 0) by (bit_vector);
}

/// Every granted path is opened, and fully: a writable one with every write right,
/// a readable one with every read right, and neither may be missing.
pub proof fn granted_paths_get_all_their_rights(policy: PolicyView, at: int)
    ensures
        0 <= at < policy.fs_write.len() ==> exists|i: int|
            0 <= i < policy_rules(policy).len() && {
                let rule = #[trigger] policy_rules(policy)[i];
                rule.path == policy.fs_write[at] && rule.required && rule.rights == WRITE_RIGHTS
            },
        0 <= at < policy.fs_read.len() ==> exists|i: int|
            0 <= i < policy_rules(policy).len() && {
                let rule = #[trigger] policy_rules(policy)[i];
                rule.path == policy.fs_read[at] && rule.required && rule.rights == READ_RIGHTS
            },
{
    let rules = policy_rules(policy);
    let first = baseline_paths().len() as int;
    if 0 <= at < policy.fs_read.len() {
        let i = first + at;
        assert(rules[i] == rules_for(policy.fs_read, READ_RIGHTS, true)[at]);
    }
    if 0 <= at < policy.fs_write.len() {
        let i = first + policy.fs_read.len() + at;
        assert(rules[i] == rules_for(policy.fs_write, WRITE_RIGHTS, true)[at]);
    }
}

/// Nothing beyond the grants is opened but the baseline: a rule with write rights
/// is that of a writable path and has no other rights, and any other rule has the
/// read rights and is that of a readable path, or an optional one of the baseline.
pub proof fn nothing_ungranted_is_opened(policy: PolicyView, i: int)
    requires
        0 <= i < policy_rules(policy).len(),
    ensures
        ({
            let rule = policy_rules(policy)[i];
            ||| rule.rights == WRITE_RIGHTS && rule.required && policy.fs_write.contains(rule.path)
            ||| rule.rights == READ_RIGHTS && rule.required && policy.fs_read.contains(rule.path)
            ||| rule.rights == READ_RIGHTS && !rule.required && baseline_paths().contains(rule.path)
        }),
        policy_rules(policy).len() == baseline_paths().len() + policy.fs_read.len()
            + policy.fs_write.len(),
{
    let rule = policy_rules(policy)[i];
    let first = baseline_paths().len() as int;
    let second = first + policy.fs_read.len();
    if i < first {
        assert(rule.path == baseline_paths()[i]);
    } else if i < second {
        assert(rule.path == policy.fs_read[i - first]);
    } else {
        assert(rule.path == policy.fs_write[i - second]);
    }
}

/// The baseline opens single system paths, never the root itself.
pub proof fn baseline_leaves_the_root_closed(i: int)
    requires
        0 <= i < baseline_paths().len(),
    ensures
        baseline_paths()[i].len() > 1,
        baseline_paths()[i][0] == '/',
{
    reveal_strlit("/usr");
    reveal_strlit("/bin");
    reveal_strlit("/sbin");
    reveal_strlit("/lib");
    reveal_strlit("/lib64");
    reveal_strlit("/etc");
    reveal_strlit("/dev/null");
    reveal_strlit("/dev/zero");
    reveal_strlit("/dev/urandom");
    reveal_strlit("/proc");
}

/// A directory gets all the rights of its rule; a file gets those of them that
/// apply to files: executing, writing and reading, and no other.
pub proof fn files_keep_the_rights_of_files(rights: u64)
    ensures
        effective(rights, true) == rights,
        effective(rights, false) & 1 == rights & 1,
        effective(rights, false) & 2 == rights & 2,
        effective(rights, false) & 4 == rights & 4,
        effective(rights, false) <= 7,
{
    assert((rights & 0x7) & 1 == rights & 1) by (bit_vector);
    assert((rights & 0x7) & 2 == rights & 2) by (bit_vector);
    assert((rights & 0x7) & 4 == rights & 4) by (bit_vector);
    assert((rights & 0x7) <= 7) by (bit_vector);
}

/// A path that could be opened is never left out, and one that could not is left
/// out only where the rule is optional; a missing grant is named in the failure.
pub proof fn only_optional_rules_are_skipped(rule: RuleView, opened: Result<bool, Seq<char>>)
    ensures
        rule_step(rule, opened) == Ok::<RuleStep, SandboxErrorView>(RuleStep::Skip) <==> opened is Err
            && !rule.required,
        rule_step(rule, opened) is Err <==> opened is Err && rule.required,
        opened == Ok::<bool, Seq<char>>(true) ==> rule_step(rule, opened) == Ok::<
            RuleStep,
            SandboxErrorView,
        >(RuleStep::Add { rights: rule.rights }),
        opened == Ok::<bool, Seq<char>>(false) ==> rule_step(rule, opened) == Ok::<
            RuleStep,
            SandboxErrorView,
        >(RuleStep::Add { rights: rule.rights & 7 }),
        rule_step(rule, opened) matches Err(e) ==> e == (SandboxErrorView::Apply {
            reason: "cannot open granted path "@ + rule.path + " for landlock: "@ + opened->Err_0,
        }),
{
}

} // verus!
