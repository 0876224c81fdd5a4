//! Job status and its wire form.

use axp::job::status::JobStatus;
use axp::proto::job::JobStatusProto;


// ── is_terminal ───────────────────────────────────────────────────────────

#[test]
fn pending_is_not_terminal() {
    assert!(!JobStatus::Pending.is_terminal());
}

#[test]
fn running_is_not_terminal() {
    assert!(!JobStatus::Running.is_terminal());
}

#[test]
fn exited_is_terminal() {
    assert!(JobStatus::Exited { code: 0 }.is_terminal());
}

#[test]
fn killed_is_terminal() {
    assert!(JobStatus::Killed.is_terminal());
}

#[test]
fn failed_is_terminal() {
    assert!(
        JobStatus::Failed {
            reason: "oops".into()
        }
        .is_terminal()
    );
}

// ── round-trip JobStatus → proto → JobStatus ──────────────────────────────

fn round_trip(s: JobStatus) -> JobStatus {
    let proto: JobStatusProto = s.into();
    proto.into()
}

#[test]
fn pending_round_trips() {
    assert_eq!(round_trip(JobStatus::Pending), JobStatus::Pending);
}

#[test]
fn running_round_trips() {
    assert_eq!(round_trip(JobStatus::Running), JobStatus::Running);
}

#[test]
fn exited_round_trips() {
    let orig = JobStatus::Exited { code: 42 };
    assert_eq!(round_trip(orig.clone()), orig);
}

#[test]
fn killed_round_trips() {
    assert_eq!(round_trip(JobStatus::Killed), JobStatus::Killed);
}

#[test]
fn failed_round_trips() {
    let orig = JobStatus::Failed {
        reason: "bad".into(),
    };
    assert_eq!(round_trip(orig.clone()), orig);
}
