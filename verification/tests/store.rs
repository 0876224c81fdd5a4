//! The job store and working directories.

use axp::error::Error;
use axp::job::store::{cwd_to_resolve, resolve_cwd, Job, JobStore};
use axp::proto::ids::{JobId, SessionId};
use axp::proto::job::JobPayload;
use axp::time::Timestamp;
use axp::workspace::Workspace;

fn make_workspace() -> (tempfile::TempDir, Workspace) {
    let dir = tempfile::tempdir().expect("tempdir");
    let canonical = dir.path().canonicalize().expect("canonical");
    let ws = Workspace::new(
        &dir.path().to_string_lossy(),
        Ok(canonical.to_string_lossy().into_owned()),
    )
    .expect("workspace");
    (dir, ws)
}

fn make_job(id: &str, session: &str) -> Job {
    Job::new(
        JobId(id.to_owned()),
        SessionId(session.to_owned()),
        JobPayload::Command {
            command: "echo hi".into(),
        },
        "/ws".to_owned(),
        Timestamp::after_epoch(1, 0),
    )
}

fn resolve(rel: Option<&str>, ws: &Workspace) -> Result<String, Error> {
    let target = cwd_to_resolve(rel, ws);
    let canonical = std::path::Path::new(&target)
        .canonicalize()
        .ok()
        .map(|p| p.to_string_lossy().into_owned());
    resolve_cwd(rel, canonical, ws)
}

#[test]
fn resolve_cwd_none_returns_canonical_root() {
    let (dir, ws) = make_workspace();
    let result = resolve(None, &ws).unwrap();
    let expected = dir.path().canonicalize().unwrap();
    assert_eq!(std::path::Path::new(&result), expected);
}

#[test]
fn resolve_cwd_existing_subdir_is_within_workspace() {
    let (dir, ws) = make_workspace();
    let sub = tempfile::Builder::new()
        .prefix("sub")
        .tempdir_in(dir.path())
        .expect("subdirectory");
    let name = sub.path().file_name().unwrap().to_string_lossy().into_owned();
    let result = resolve(Some(&name), &ws).unwrap();
    assert!(ws.contains(&result));
}

#[test]
fn resolve_cwd_nonexistent_subdir_returns_violation() {
    let (_dir, ws) = make_workspace();
    let result = resolve(Some("nonexistent"), &ws);
    assert!(
        matches!(result, Err(Error::WorkspaceViolation { .. })),
        "expected WorkspaceViolation, got {result:?}"
    );
}

#[test]
fn resolve_cwd_absolute_escape_returns_violation() {
    let (_dir, ws) = make_workspace();
    let result = resolve(Some("/etc"), &ws);
    assert!(
        matches!(result, Err(Error::WorkspaceViolation { .. })),
        "expected WorkspaceViolation for /etc escape, got {result:?}"
    );
}

#[test]
fn symbolic_link_out_of_the_workspace_is_a_violation() {
    let ws = Workspace::new("/ws", Ok("/ws".to_owned())).unwrap();
    let result = resolve_cwd(Some("link"), Some("/elsewhere".to_owned()), &ws);
    assert!(matches!(result, Err(Error::WorkspaceViolation { .. })));
    let inside = resolve_cwd(Some("link"), Some("/ws/real".to_owned()), &ws);
    assert_eq!(inside.unwrap(), "/ws/real");
}

#[test]
fn insert_and_get_returns_handle() {
    let mut store = JobStore::new();
    store.insert(make_job("j_1", "s_1"));
    let got = store
        .get(&JobId("j_1".into()))
        .expect("job must be present");
    assert_eq!(got.id, JobId("j_1".into()));
}

#[test]
fn store_get_unknown_id_returns_none() {
    let store = JobStore::new();
    assert!(store.get(&JobId("j_unknown".into())).is_none());
}

#[test]
fn list_for_session_groups_jobs_under_session() {
    let mut store = JobStore::new();
    store.insert(make_job("j_1", "s_1"));
    store.insert(make_job("j_2", "s_1"));
    store.insert(make_job("j_3", "s_2"));

    let mut ids = store.list_for_session(&SessionId("s_1".into()));
    ids.sort_by(|a, b| a.0.cmp(&b.0));
    assert_eq!(ids, vec![JobId("j_1".into()), JobId("j_2".into())]);
}

#[test]
fn list_for_session_unknown_session_returns_empty() {
    let store = JobStore::new();
    let ids = store.list_for_session(&SessionId("s_unknown".into()));
    assert!(ids.is_empty());
}

#[test]
fn remove_returns_handle_and_subsequent_get_is_none() {
    let mut store = JobStore::new();
    store.insert(make_job("j_1", "s_1"));
    let removed = store.remove(&JobId("j_1".into()));
    assert!(removed.is_some());
    assert!(store.get(&JobId("j_1".into())).is_none());
}

#[test]
fn remove_updates_session_index() {
    let mut store = JobStore::new();
    store.insert(make_job("j_1", "s_1"));
    store.insert(make_job("j_2", "s_1"));

    store.remove(&JobId("j_1".into()));
    let ids = store.list_for_session(&SessionId("s_1".into()));
    assert!(!ids.contains(&JobId("j_1".into())));
    assert!(ids.contains(&JobId("j_2".into())));
}
