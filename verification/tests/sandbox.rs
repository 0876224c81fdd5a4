//! Sandbox policies, their rules and their errors.

use axp::proto::tier::EnforcementTier;
use axp::sandbox::error::SandboxError;
use axp::sandbox::fs_rules::{add_path_rule, path_rules, RuleStep};
use axp::sandbox::policy::{Confinement, SandboxPolicy};
use axp::sandbox::probe::landlock_available;
use axp::sandbox::seccomp::{denied_syscalls, deny_program};

#[test]
fn unavailable_display_contains_tier_and_reason() {
    let err = SandboxError::Unavailable {
        tier: EnforcementTier::KernelLsm,
        reason: "kernel too old".to_string(),
    };
    let msg = err.text();
    assert!(msg.contains("KernelLsm"), "missing tier: {msg}");
    assert!(msg.contains("kernel too old"), "missing reason: {msg}");
    assert_eq!(msg, "sandbox tier KernelLsm unavailable: kernel too old");
}

#[test]
fn apply_display_contains_reason() {
    let err = SandboxError::Apply {
        reason: "pre_exec failed".to_string(),
    };
    let msg = err.text();
    assert!(msg.contains("pre_exec failed"), "missing reason: {msg}");
    assert_eq!(msg, "failed to apply sandbox: pre_exec failed");
}

#[test]
fn from_parts_round_trips_fields() {
    let read = vec!["/ws/src".to_owned()];
    let write = vec!["/ws/out".to_owned()];
    let policy = SandboxPolicy::from_parts(
        EnforcementTier::KernelLsm,
        read.clone(),
        write.clone(),
        true,
        false,
    );
    assert_eq!(policy.tier, EnforcementTier::KernelLsm);
    assert_eq!(policy.fs_read, read);
    assert_eq!(policy.fs_write, write);
    assert!(policy.allow_proc_spawn);
    assert!(!policy.allow_network);
}

#[test]
fn dev_none_has_dev_none_tier() {
    let policy = SandboxPolicy::dev_none();
    assert_eq!(policy.tier, EnforcementTier::DevNone);
}

fn bare(tier: EnforcementTier) -> SandboxPolicy {
    SandboxPolicy::from_parts(tier, Vec::new(), Vec::new(), false, false)
}

#[test]
fn apply_dev_none_is_ok() {
    let policy = SandboxPolicy::dev_none();
    assert!(policy.apply(landlock_available(), "x86_64").is_ok());
    assert!(policy.apply(false, "x86_64").is_ok());
}

#[test]
fn apply_kernel_lsm_matches_landlock_availability() {
    let available = landlock_available();
    let result = bare(EnforcementTier::KernelLsm).apply(available, "x86_64");
    if available {
        assert!(
            result.is_ok(),
            "expected Ok with Landlock available, got {result:?}"
        );
    } else {
        match result {
            Err(SandboxError::Unavailable { tier, .. }) => {
                assert_eq!(tier, EnforcementTier::KernelLsm);
            }
            other => panic!("expected Unavailable, got {other:?}"),
        }
    }
}

#[test]
fn apply_kernel_lsm_without_landlock_fails() {
    assert!(matches!(
        bare(EnforcementTier::KernelLsm).apply(false, "x86_64"),
        Err(SandboxError::Unavailable { tier: EnforcementTier::KernelLsm, .. })
    ));
    assert!(bare(EnforcementTier::KernelLsm).apply(true, "x86_64").is_ok());
}

/// Kernel enforcement carries the path rules and the syscall filter together.
#[test]
fn enforcement_follows_the_tier() {
    let none = SandboxPolicy::dev_none().apply(true, "x86_64").unwrap();
    assert_eq!(none, Confinement::Nothing);
    let policy = bare(EnforcementTier::KernelLsm);
    match policy.apply(true, "x86_64").unwrap() {
        Confinement::Kernel { rules, program } => {
            assert_eq!(rules, path_rules(&policy));
            assert_eq!(program, deny_program("x86_64").unwrap());
        }
        other => panic!("expected Kernel, got {other:?}"),
    }
}

/// Without a filter for the architecture a child is not confined by paths alone.
#[test]
fn apply_kernel_lsm_on_unknown_architecture_fails() {
    assert!(matches!(
        bare(EnforcementTier::KernelLsm).apply(true, "vax"),
        Err(SandboxError::Apply { .. })
    ));
    assert!(SandboxPolicy::dev_none().apply(true, "vax").is_ok());
}

#[test]
fn apply_container_is_unavailable() {
    assert!(matches!(
        bare(EnforcementTier::Container).apply(landlock_available(), "x86_64"),
        Err(SandboxError::Unavailable { .. })
    ));
}

#[test]
fn apply_process_token_is_unavailable() {
    assert!(matches!(
        bare(EnforcementTier::ProcessToken).apply(landlock_available(), "x86_64"),
        Err(SandboxError::Unavailable { .. })
    ));
}

#[test]
fn landlock_available_returns_a_bool_without_panicking() {
    let supported = landlock_available();
    let _ = supported;
}

/// The deny set is six distinct syscalls.
#[test]
fn denied_set_is_six_distinct_syscalls() {
    let mut denied = denied_syscalls();
    assert_eq!(denied.len(), 6);
    denied.sort_unstable();
    for pair in denied.windows(2) {
        assert_ne!(pair[0], pair[1], "duplicate syscall in deny set");
    }
}

#[test]
fn filter_program_is_built_for_known_architectures_only() {
    let program = deny_program("x86_64").expect("program");
    assert!(program.len() > 6, "one comparison per syscall and more");
    match deny_program("vax") {
        Err(SandboxError::Apply { reason }) => assert!(!reason.is_empty()),
        other => panic!("expected Apply, got {:?}", other.map(|p| p.len())),
    }
}

#[test]
fn rules_cover_the_baseline_and_the_grants() {
    let policy = SandboxPolicy::from_parts(
        EnforcementTier::KernelLsm,
        vec!["/ws".to_owned()],
        vec!["/ws/out".to_owned()],
        false,
        false,
    );
    let rules = path_rules(&policy);
    let read = rules.iter().find(|r| r.path == "/ws").expect("read rule");
    let write = rules.iter().find(|r| r.path == "/ws/out").expect("write rule");
    let system = rules.iter().find(|r| r.path == "/usr").expect("baseline rule");
    assert_eq!(read.rights, system.rights);
    assert_eq!(read.rights & write.rights, 0);
    assert_ne!(write.rights, 0);
    assert!(read.required);
    assert!(!system.required);
}

#[test]
fn missing_baseline_path_is_skipped_and_missing_grant_fails() {
    let policy = SandboxPolicy::from_parts(
        EnforcementTier::KernelLsm,
        vec!["/ws".to_owned()],
        Vec::new(),
        false,
        false,
    );
    let rules = path_rules(&policy);
    let system = rules.iter().find(|r| r.path == "/usr").unwrap();
    let read = rules.iter().find(|r| r.path == "/ws").unwrap();
    assert_eq!(
        add_path_rule(system, Err("gone".to_owned())).unwrap(),
        RuleStep::Skip
    );
    assert!(add_path_rule(read, Err("gone".to_owned())).is_err());
    let on_dir = add_path_rule(read, Ok(true)).unwrap();
    let on_file = add_path_rule(read, Ok(false)).unwrap();
    assert_ne!(on_dir, on_file, "directory rights do not apply to a file");
}

/// Policies compare their paths by components, and everything else as it is.
#[test]
fn policies_compare_paths_by_components() {
    let policy = |read: &str, spawn: bool| {
        SandboxPolicy::from_parts(
            EnforcementTier::KernelLsm,
            vec![read.to_owned()],
            Vec::new(),
            spawn,
            false,
        )
    };
    assert_eq!(policy("/ws", true), policy("/ws/", true));
    assert_ne!(policy("/ws", true), policy("/ws", false));
    assert_ne!(policy("/ws", true), policy("/other", true));
    assert_ne!(policy("/ws", true), SandboxPolicy::dev_none());
}
