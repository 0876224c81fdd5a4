//! Sessions, their store, credentials and workspaces.

use axp::auth::{CapToken, TOKEN_BYTES};
use axp::capability::CapabilitySet;
use axp::error::Error;
use axp::proto::ids::{JobId, SessionId};
use axp::proto::job::JobStatusProto;
use axp::proto::tier::EnforcementTier;
use axp::session::{AuditEvent, AuditEventKind, SessionStore};
use axp::time::Timestamp;
use axp::workspace::Workspace;

fn workspace_at(path: &std::path::Path) -> Result<Workspace, Error> {
    let text = path.to_string_lossy().into_owned();
    let canonical = path
        .canonicalize()
        .map(|p| p.to_string_lossy().into_owned())
        .map_err(|e| e.to_string());
    Workspace::new(&text, canonical)
}

fn make_workspace() -> Workspace {
    let dir = tempfile::tempdir().expect("tempdir");
    workspace_at(dir.path()).expect("workspace")
}

fn token() -> CapToken {
    CapToken::generate().expect("entropy")
}

fn at(secs: u64) -> Timestamp {
    Timestamp::after_epoch(secs, 0)
}

fn sid(s: &str) -> SessionId {
    SessionId(s.to_owned())
}

fn opened(id: &str) -> SessionStore {
    let mut store = SessionStore::new();
    store.open(
        sid(id),
        make_workspace(),
        EnforcementTier::DevNone,
        CapabilitySet::default(),
        token(),
        at(5),
    );
    store
}

#[test]
fn open_and_get_returns_matching_session() {
    let store = opened("s_1");
    let session = store.get(&sid("s_1")).expect("session should be present");
    assert_eq!(session.id, sid("s_1"));
}

#[test]
fn session_get_unknown_id_returns_none() {
    let store = SessionStore::new();
    assert!(store.get(&sid("s_unknown")).is_none());
}

#[test]
fn close_removes_session() {
    let mut store = opened("s_2");
    store.close(&sid("s_2"), at(6)).ok().expect("close should succeed");
    assert!(
        store.get(&sid("s_2")).is_none(),
        "session should be absent after close"
    );
}

#[test]
fn close_unknown_session_returns_session_not_found() {
    let mut store = SessionStore::new();
    match store.close(&sid("s_ghost"), at(6)) {
        Err(Error::SessionNotFound(id)) => assert_eq!(id.as_str(), "s_ghost"),
        _ => panic!("expected SessionNotFound"),
    }
}

#[test]
fn opened_session_has_session_opened_audit_event() {
    let store = opened("s_3");
    let events = store.get(&sid("s_3")).unwrap().audit_events();
    assert_eq!(events.len(), 1);
    assert!(
        matches!(events[0].kind, AuditEventKind::SessionOpened),
        "first audit event should be SessionOpened"
    );
    assert_eq!(events[0].timestamp, at(5));
}

#[test]
fn closed_session_has_session_closed_audit_event() {
    let mut store = opened("s_4");
    let session = store.close(&sid("s_4"), at(6)).ok().unwrap();
    let events = session.audit_events();
    assert_eq!(events.len(), 2);
    assert!(matches!(events[0].kind, AuditEventKind::SessionOpened));
    assert!(matches!(events[1].kind, AuditEventKind::SessionClosed));
}

#[test]
fn session_created_at_is_set() {
    let store = opened("s_time");
    let session = store.get(&sid("s_time")).unwrap();
    assert_eq!(session.created_at, at(5));
}

#[test]
fn only_the_token_of_a_live_session_authorizes() {
    let mut store = SessionStore::new();
    let mine = token();
    let secret = mine.expose().to_owned();
    store.open(
        sid("s_a"),
        make_workspace(),
        EnforcementTier::DevNone,
        CapabilitySet::default(),
        mine,
        at(1),
    );
    assert!(store.authorize(&sid("s_a"), &secret));
    assert!(!store.authorize(&sid("s_a"), "ct_wrong"));
    assert!(!store.authorize(&sid("s_b"), &secret));
    store.close(&sid("s_a"), at(2)).ok().unwrap();
    assert!(!store.authorize(&sid("s_a"), &secret), "closing revokes");
}

#[test]
fn recording_on_a_session_that_is_not_live_changes_nothing() {
    let mut store = opened("s_5");
    store.record(&sid("s_other"), AuditEventKind::SessionClosed, at(9));
    assert_eq!(store.get(&sid("s_5")).unwrap().audit_events().len(), 1);
    store.record(&sid("s_5"), AuditEventKind::SessionClosed, at(9));
    assert_eq!(store.get(&sid("s_5")).unwrap().audit_events().len(), 2);
}

// ── tokens ───────────────────────────────────────────────────────────────

#[test]
fn generate_produces_prefixed_token_of_expected_length() {
    let token = CapToken::generate().expect("entropy");
    let raw = token.expose();
    assert!(raw.starts_with("ct_"), "expected ct_ prefix, got: {raw}");
    assert_eq!(raw.len(), "ct_".len() + 2 * TOKEN_BYTES);
    assert_eq!(raw.len(), 3 + 64);
    assert!(
        raw[3..].bytes().all(|b| b.is_ascii_hexdigit()),
        "body must be lowercase hex: {raw}"
    );
}

#[test]
fn two_generated_tokens_differ() {
    let a = CapToken::generate().expect("entropy");
    let b = CapToken::generate().expect("entropy");
    assert_ne!(a.expose(), b.expose(), "tokens must be unguessable/unique");
}

#[test]
fn verify_accepts_exact_token() {
    let token = CapToken::generate().expect("entropy");
    let raw = token.expose().to_owned();
    assert!(token.verify(&raw));
}

#[test]
fn verify_rejects_wrong_truncated_and_empty() {
    let token = CapToken::generate().expect("entropy");
    let raw = token.expose().to_owned();

    let mut wrong = String::from("ct_");
    wrong.push_str(&"f".repeat(64));
    assert!(!token.verify(&wrong), "wrong token must be rejected");
    assert!(
        !token.verify(&raw[..raw.len() - 1]),
        "truncated token must be rejected"
    );
    assert!(!token.verify(""), "empty string must be rejected");
}

#[test]
fn debug_output_redacts_raw_token() {
    let token = CapToken::generate().expect("entropy");
    let raw = token.expose().to_owned();
    let debug = token.redacted();
    assert!(
        !debug.contains(&raw),
        "diagnostics must not contain the raw token: {debug}"
    );
    assert!(
        debug.contains("redacted"),
        "diagnostics should signal redaction: {debug}"
    );
}

#[test]
fn token_writes_its_bytes_in_lower_case_hex() {
    let token = CapToken::from_random(&[0x00, 0x0f, 0xa5, 0xff]);
    assert_eq!(token.expose(), "ct_000fa5ff");
}

// ── workspaces ───────────────────────────────────────────────────────────

#[test]
fn new_succeeds_for_existing_dir() {
    let dir = tempfile::tempdir().expect("tempdir");
    let ws = workspace_at(dir.path()).expect("workspace from existing dir");
    assert!(std::path::Path::new(ws.root()).is_absolute());
}

#[test]
fn root_matches_canonical_path() {
    let dir = tempfile::tempdir().expect("tempdir");
    let ws = workspace_at(dir.path()).unwrap();
    let expected = dir.path().canonicalize().unwrap();
    assert_eq!(std::path::Path::new(ws.root()), expected);
}

#[test]
fn contains_root_itself() {
    let ws = make_workspace();
    assert!(ws.contains(ws.root()));
}

#[test]
fn contains_subdirectory() {
    let ws = make_workspace();
    let sub = format!("{}/subdir/nested", ws.root());
    assert!(ws.contains(&sub));
}

#[test]
fn does_not_contain_unrelated_path() {
    let ws = make_workspace();
    assert!(!ws.contains("/etc/passwd"));
}

#[test]
fn does_not_contain_sibling_with_shared_prefix() {
    let dir = tempfile::tempdir().expect("tempdir");
    let ws = workspace_at(dir.path()).unwrap();
    let sibling = format!("{}-extra", dir.path().to_string_lossy());
    assert!(!ws.contains(&sibling));
}

#[test]
fn new_on_nonexistent_path_returns_err() {
    let result = workspace_at(std::path::Path::new(
        "/this/path/does/not/exist/axp_test_12345",
    ));
    match result {
        Err(Error::InvalidWorkspace { path, reason }) => {
            assert_eq!(path, "/this/path/does/not/exist/axp_test_12345");
            assert!(!reason.is_empty());
        }
        other => panic!("expected InvalidWorkspace, got {other:?}"),
    }
}

#[test]
fn relative_canonical_path_is_no_workspace() {
    match Workspace::new("x", Ok("x".to_owned())) {
        Err(Error::InvalidWorkspace { reason, .. }) => {
            assert_eq!(reason, "canonicalized path is not absolute");
        }
        other => panic!("expected InvalidWorkspace, got {other:?}"),
    }
}

#[test]
fn cloned_audit_event_says_the_same() {
    let event = AuditEvent {
        timestamp: at(3),
        kind: AuditEventKind::JobFinished {
            job_id: JobId("j_1".to_owned()),
            status: JobStatusProto::Failed { reason: "gone".to_owned() },
        },
    };
    let copy = event.clone();
    assert_eq!(copy.timestamp, at(3));
    assert!(matches!(
        copy.kind,
        AuditEventKind::JobFinished { job_id, status: JobStatusProto::Failed { reason } }
            if job_id.0 == "j_1" && reason == "gone"
    ));
}
