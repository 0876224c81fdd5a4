//! The job engine: starting, draining, attaching and cancelling.

use axp::capability::{CapabilitySet, RuntimeCapability};
use axp::error::Error;
use axp::job::code::decode_code_payload;
use axp::job::command::{CommandAction, CommandEvent, CommandRun, ExitReport};
use axp::job::drain::{CodeOutcome, DrainAction, DrainEvent, DrainState, WaitOutcome};
use axp::job::engine::{JobEngine, SpawnOutcome};
use axp::job::log::LogStream;
use axp::job::plan::{build_sandbox_policy, invoke_code_capability, prepare_launch, Launch};
use axp::job::status::JobStatus;
use axp::job::store::JobStore;
use axp::job::stream::NextFrame;
use axp::proto::capability::Capability;
use axp::proto::ids::{JobId, SessionId};
use axp::proto::job::{
    JobAttachRequest, JobCancelRequest, JobPayload, JobStartRequest, JobStatusProto,
    JobStatusRequest, LogEventFrame,
};
use axp::proto::tier::EnforcementTier;
use axp::provider::{CapabilityArg, CapabilityDescriptor, ExecutionSpec, NativeProvider};
use axp::registry::ProviderRegistry;
use axp::sandbox::error::SandboxError;
use axp::session::{AuditEventKind, SessionStore};
use axp::time::Timestamp;
use axp::workspace::Workspace;
use bytes::Bytes;

type Jobs = JobEngine<NativeProvider>;

const ROOT: &str = "/ws";

fn at(secs: u64) -> Timestamp {
    Timestamp::after_epoch(secs, 0)
}

fn sid() -> SessionId {
    SessionId("s_test".into())
}

fn workspace() -> Workspace {
    Workspace::new(ROOT, Ok(ROOT.to_owned())).expect("workspace")
}

fn engine_with(caps: CapabilitySet, registry: ProviderRegistry<NativeProvider>) -> Jobs {
    let mut sessions = SessionStore::new();
    sessions.open(
        sid(),
        workspace(),
        EnforcementTier::DevNone,
        caps,
        axp::auth::CapToken::generate().expect("entropy"),
        at(1),
    );
    JobEngine::new(sessions, JobStore::new(), registry)
}

fn spawning() -> CapabilitySet {
    CapabilitySet::new(vec![RuntimeCapability::ProcSpawn])
}

fn tool(name: &str) -> CapabilitySet {
    CapabilitySet::new(vec![RuntimeCapability::Tool(name.to_owned())])
}

fn engine() -> Jobs {
    engine_with(spawning(), ProviderRegistry::new())
}

fn say_hi_registry() -> ProviderRegistry<NativeProvider> {
    let provider = NativeProvider::new(
        "test".to_owned(),
        vec![CapabilityDescriptor {
            name: "say_hi".to_string(),
            desc: "Print a fixed greeting line for tests".to_string(),
            signature: "say_hi(): string".to_string(),
            schema: serde_json::from_str(r#"{"type":"object"}"#).unwrap(),
            execution: ExecutionSpec {
                program: "echo".to_string(),
                args_template: vec![CapabilityArg::Literal("hi".to_string())],
            },
        }],
    )
    .ok()
    .unwrap();
    let mut registry = ProviderRegistry::new();
    registry.register(provider).unwrap();
    registry
}

fn request(payload: JobPayload) -> JobStartRequest {
    JobStartRequest {
        session_id: sid(),
        cap_token: "ct_test".into(),
        payload,
        cwd: None,
        capabilities: vec![],
    }
}

fn command_req(command: &str) -> JobStartRequest {
    request(JobPayload::Command {
        command: command.into(),
    })
}

fn capability_req(name: &str) -> JobStartRequest {
    request(JobPayload::Capability {
        name: name.into(),
        params: serde_json::from_str("{}").unwrap(),
    })
}

fn start(engine: &mut Jobs, req: &JobStartRequest) -> Result<JobId, Error> {
    let canonical = match &req.cwd {
        None => Some(ROOT.to_owned()),
        Some(dir) if dir.starts_with('/') => Some(dir.clone()),
        Some(dir) => Some(format!("{ROOT}/{dir}")),
    };
    engine.start(req, canonical, SpawnOutcome::Spawned, at(2))
}

fn data(stream: LogStream, bytes: &[u8]) -> DrainEvent {
    DrainEvent::Data {
        stream,
        data: Bytes::copy_from_slice(bytes),
    }
}

/// Feed output, end both pipes and end the job.
fn run_to_end(engine: &mut Jobs, id: &JobId, chunks: &[(LogStream, &[u8])], waited: WaitOutcome) {
    let mut state = DrainState::begin(true, true);
    for (stream, bytes) in chunks {
        let (next, action) = engine.drain_step(id, state, data(*stream, bytes), at(3));
        assert_eq!(action, DrainAction::Continue);
        state = next;
    }
    for stream in [LogStream::Stdout, LogStream::Stderr] {
        state = engine.drain_step(id, state, DrainEvent::End { stream }, at(3)).0;
    }
    assert!(state.is_drained());
    let status = state.final_status(waited);
    engine.finish_job(id, &sid(), status, at(4));
}

fn attach_req(job_id: &JobId, from_offset: u64) -> JobAttachRequest {
    JobAttachRequest {
        session_id: sid(),
        cap_token: "ct_test".into(),
        job_id: job_id.clone(),
        from_offset,
    }
}

fn status_req(session_id: SessionId, job_id: &JobId) -> JobStatusRequest {
    JobStatusRequest {
        session_id,
        cap_token: "ct_test".into(),
        job_id: job_id.clone(),
    }
}

fn cancel_req(session_id: SessionId, job_id: &JobId) -> JobCancelRequest {
    JobCancelRequest {
        session_id,
        cap_token: "ct_test".into(),
        job_id: job_id.clone(),
    }
}

fn frames(engine: &Jobs, id: &JobId, from: u64) -> Vec<LogEventFrame> {
    let mut stream = engine.attach(&attach_req(id, from)).ok().expect("attach");
    let job = engine.jobs().get(id).expect("job");
    let mut all = Vec::new();
    loop {
        match stream.next(job) {
            NextFrame::Frame(frame) => all.push(frame),
            NextFrame::End => return all,
            NextFrame::Wait => panic!("the job has ended"),
        }
    }
}

fn finished(chunks: &[(LogStream, &[u8])]) -> (Jobs, JobId) {
    let mut engine = engine();
    let id = start(&mut engine, &command_req("echo")).expect("start");
    run_to_end(&mut engine, &id, chunks, WaitOutcome::Code(0));
    (engine, id)
}

#[test]
fn output_and_exit_code_are_recorded() {
    let mut engine = engine();
    let id = start(&mut engine, &command_req("exit 3")).expect("start");
    assert_eq!(id, JobId("j_1".into()));
    run_to_end(
        &mut engine,
        &id,
        &[(LogStream::Stdout, b"out"), (LogStream::Stderr, b"oops")],
        WaitOutcome::Code(3),
    );
    let job = engine.jobs().get(&id).unwrap();
    assert_eq!(job.status, JobStatus::Exited { code: 3 });
    let events = job.log_buffer.since(0);
    assert_eq!(events[0].data.as_ref(), b"out");
    assert_eq!(events[1].data.as_ref(), b"oops");
    assert_eq!(events[1].stream, LogStream::Stderr);
}

#[test]
fn command_denied_without_proc_spawn() {
    let mut engine = engine_with(CapabilitySet::default(), ProviderRegistry::new());
    match start(&mut engine, &command_req("echo nope")) {
        Err(Error::CapabilityDenied { required }) => assert_eq!(required, "proc.spawn"),
        other => panic!("expected CapabilityDenied, got {other:?}"),
    }
    assert!(
        engine.jobs().get(&JobId("j_1".into())).is_none(),
        "no job should exist after a denied start"
    );
}

#[test]
fn command_cwd_outside_workspace() {
    let mut engine = engine();
    let mut req = command_req("echo hi");
    req.cwd = Some("/etc".into());
    let result = start(&mut engine, &req);
    assert!(
        matches!(result, Err(Error::WorkspaceViolation { .. })),
        "expected WorkspaceViolation, got {result:?}"
    );
}

#[test]
fn code_payload_invalid_base64_is_rejected_without_job() {
    let mut engine = engine_with(CapabilitySet::default(), ProviderRegistry::new());
    let req = request(JobPayload::Code {
        code: "not base64!".into(),
        lang: None,
    });
    let result = start(&mut engine, &req);
    assert!(
        matches!(result, Err(Error::InvalidCodePayload { .. })),
        "expected InvalidCodePayload, got {result:?}"
    );
    assert!(
        engine.jobs().get(&JobId("j_1".into())).is_none(),
        "no job should exist after invalid code payload"
    );
}

#[test]
fn code_payload_unknown_lang_is_rejected() {
    let mut engine = engine_with(CapabilitySet::default(), ProviderRegistry::new());
    let req = request(JobPayload::Code {
        code: "AAAA".into(),
        lang: Some("python".into()),
    });
    match start(&mut engine, &req) {
        Err(Error::InvalidCodePayload { reason }) => {
            assert_eq!(reason, "unsupported language `python`");
        }
        other => panic!("expected InvalidCodePayload, got {other:?}"),
    }
}

#[test]
fn code_payload_decodes_standard_base64() {
    assert_eq!(decode_code_payload("aGVsbG8=", &None).unwrap(), b"hello");
    assert_eq!(
        decode_code_payload("", &Some("wasm-component".into())).unwrap(),
        b""
    );
}

#[test]
fn code_needs_no_spawn_grant() {
    let mut engine = engine_with(CapabilitySet::default(), ProviderRegistry::new());
    let req = request(JobPayload::Code {
        code: "aGVsbG8=".into(),
        lang: None,
    });
    let plan = engine.plan_start(&req).ok().expect("plan");
    let launch = prepare_launch(plan, &None, Some(ROOT.to_owned()), &Vec::new()).unwrap();
    match launch {
        Launch::Code { bytes, cwd } => {
            assert_eq!(bytes, b"hello");
            assert_eq!(cwd, ROOT);
        }
        other => panic!("expected Code, got {other:?}"),
    }
    let id = start(&mut engine, &req).unwrap();
    let status = engine.complete_code(&id, CodeOutcome::Finished(Some("ok".into())), at(3));
    assert_eq!(status, JobStatus::Exited { code: 0 });
    let logged = engine.jobs().get(&id).unwrap().log_buffer.since(0);
    assert_eq!(logged[0].data.as_ref(), b"ok\n");
}

#[test]
fn failed_and_cancelled_code_end_so() {
    let mut engine = engine_with(CapabilitySet::default(), ProviderRegistry::new());
    let req = request(JobPayload::Code {
        code: "AAAA".into(),
        lang: None,
    });
    let failed = start(&mut engine, &req).unwrap();
    let status = engine.complete_code(&failed, CodeOutcome::Failed("boom".into()), at(3));
    assert!(matches!(status, JobStatus::Failed { .. }));
    let logged = engine.jobs().get(&failed).unwrap().log_buffer.since(0);
    assert_eq!(logged[0].stream, LogStream::Stderr);
    assert_eq!(logged[0].data.as_ref(), b"boom\n");
    let killed = start(&mut engine, &req).unwrap();
    assert_eq!(killed, JobId("j_2".into()));
    let status = engine.complete_code(&killed, CodeOutcome::Cancelled, at(3));
    assert_eq!(status, JobStatus::Killed);
}

#[test]
fn shell_command_is_launched_through_the_shell() {
    let engine = engine();
    let plan = engine.plan_start(&command_req("echo hello")).ok().unwrap();
    let launch = prepare_launch(plan, &None, Some(ROOT.to_owned()), &Vec::new()).unwrap();
    match launch {
        Launch::Process { command, cwd, policy } => {
            assert_eq!(command.program, "sh");
            assert_eq!(command.args, vec!["-c", "echo hello"]);
            assert_eq!(cwd, ROOT);
            assert!(policy.allow_proc_spawn);
            assert_eq!(policy.fs_read, vec![ROOT]);
        }
        other => panic!("expected Process, got {other:?}"),
    }
}

#[test]
fn capability_grant_alone_authorizes_its_tool() {
    let engine = engine_with(tool("say_hi"), say_hi_registry());
    let plan = engine.plan_start(&capability_req("say_hi")).ok().unwrap();
    let launch = prepare_launch(plan, &None, Some(ROOT.to_owned()), &Vec::new()).unwrap();
    match launch {
        Launch::Process { command, .. } => {
            assert_eq!(command.program, "echo");
            assert_eq!(command.args, vec!["hi"]);
        }
        other => panic!("expected Process, got {other:?}"),
    }
}

#[test]
fn capability_without_grant_is_denied() {
    let mut engine = engine_with(tool("other"), say_hi_registry());
    let result = start(&mut engine, &capability_req("say_hi"));
    assert!(
        matches!(result, Err(Error::CapabilityDenied { .. })),
        "expected CapabilityDenied without the tool grant, got {result:?}"
    );
}

#[test]
fn capability_unknown_name_is_not_found() {
    let mut engine = engine_with(tool("ghost"), say_hi_registry());
    let result = start(&mut engine, &capability_req("ghost"));
    assert!(
        matches!(result, Err(Error::CapabilityNotFound { .. })),
        "expected CapabilityNotFound for unknown capability, got {result:?}"
    );
}

#[test]
fn component_invocations_are_checked_like_jobs() {
    let registry = say_hi_registry();
    let invoke = |caps: &CapabilitySet, name: &str, params: &str| {
        invoke_code_capability(
            name,
            params,
            caps,
            &registry,
            &workspace(),
            EnforcementTier::DevNone,
        )
    };
    let (command, policy) = invoke(&tool("say_hi"), "say_hi", "{}").ok().expect("invoke");
    assert_eq!(command.program, "echo");
    assert!(policy.allow_proc_spawn);
    match invoke(&tool("other"), "say_hi", "{}") {
        Err(Error::CapabilityDenied { required }) => assert_eq!(required, "tool:say_hi"),
        _ => panic!("expected CapabilityDenied"),
    }
    match invoke(&tool("say_hi"), "say_hi", "{") {
        Err(Error::CapabilityParse { raw, reason }) => {
            assert_eq!(raw, "{");
            assert!(reason.starts_with("invalid params JSON: EOF"), "{reason}");
        }
        _ => panic!("expected CapabilityParse"),
    }
    assert!(matches!(
        invoke(&tool("ghost"), "ghost", "{}"),
        Err(Error::CapabilityNotFound { .. })
    ));
}

#[test]
fn unknown_session_returns_not_found() {
    let mut engine = engine();
    let mut req = command_req("echo hi");
    req.session_id = SessionId("s_ghost".into());
    let result = start(&mut engine, &req);
    assert!(
        matches!(result, Err(Error::SessionNotFound(_))),
        "expected SessionNotFound, got {result:?}"
    );
}

#[test]
fn job_level_capability_attenuation_denied() {
    let mut engine = engine();
    let mut req = command_req("echo hi");
    req.capabilities = vec![Capability("fs.read(/proj)".into())];
    match start(&mut engine, &req) {
        Err(Error::CapabilityDenied { required }) => assert_eq!(required, "fs.read(/proj)"),
        other => panic!("expected CapabilityDenied for job-level cap, got {other:?}"),
    }
}

#[test]
fn failed_spawn_leaves_no_job() {
    let mut engine = engine();
    let req = command_req("echo hi");
    let spawn = |engine: &mut Jobs, outcome| {
        engine.start(&req, Some(ROOT.to_owned()), outcome, at(2))
    };
    assert!(matches!(
        spawn(&mut engine, SpawnOutcome::SpawnFailed("no such file".into())),
        Err(Error::JobSpawn { .. })
    ));
    assert!(matches!(
        spawn(
            &mut engine,
            SpawnOutcome::SandboxFailed(SandboxError::Unavailable {
                tier: EnforcementTier::KernelLsm,
                reason: "old".into()
            })
        ),
        Err(Error::SandboxUnavailable { .. })
    ));
    assert!(matches!(
        spawn(
            &mut engine,
            SpawnOutcome::SandboxFailed(SandboxError::Apply { reason: "x".into() })
        ),
        Err(Error::SandboxApply { .. })
    ));
    assert!(engine.jobs().list_for_session(&sid()).is_empty());
    assert_eq!(
        start(&mut engine, &command_req("echo")).unwrap(),
        JobId("j_1".into()),
        "no number is used up by a failed start"
    );
}

#[test]
fn output_exceeding_log_cap_kills_job_and_marks_failed() {
    let mut engine = engine().with_log_byte_cap(8);
    let id = start(&mut engine, &command_req("echo this output exceeds eight bytes")).unwrap();
    let state = DrainState::begin(true, true);
    let (state, action) = engine.drain_step(
        &id,
        state,
        data(LogStream::Stdout, b"this output exceeds eight bytes\n"),
        at(3),
    );
    assert_eq!(action, DrainAction::Kill);
    assert!(state.is_drained());
    match state.final_status(WaitOutcome::NoCode) {
        JobStatus::Failed { reason } => assert!(reason.contains("overflow")),
        other => panic!("expected Failed(log buffer overflow), got {other:?}"),
    }
}

#[test]
fn cancelled_job_is_drained_and_ends_killed() {
    let mut engine = engine();
    let id = start(&mut engine, &command_req("sleep 30")).unwrap();
    let state = DrainState::begin(true, false);
    let (state, action) = engine.drain_step(&id, state, DrainEvent::Cancel, at(3));
    assert_eq!(action, DrainAction::Kill);
    assert!(!state.is_drained());
    let (state, _) = engine.drain_step(&id, state, data(LogStream::Stdout, b"late"), at(3));
    let (state, _) = engine.drain_step(
        &id,
        state,
        DrainEvent::End { stream: LogStream::Stdout },
        at(3),
    );
    assert!(state.is_drained());
    assert_eq!(state.final_status(WaitOutcome::Code(0)), JobStatus::Killed);
    let logged = engine.jobs().get(&id).unwrap().log_buffer.since(0);
    assert_eq!(logged[0].data.as_ref(), b"late");
}

#[test]
fn attach_from_zero_replays_all_after_completion() {
    let (engine, id) = finished(&[
        (LogStream::Stdout, b"al"),
        (LogStream::Stdout, b"pha\n"),
        (LogStream::Stderr, b"warn"),
    ]);
    let all = frames(&engine, &id, 0);
    for (i, f) in all.iter().enumerate() {
        assert_eq!(f.seq, i as u64, "seqs must be contiguous from 0");
        assert_eq!(f.job_id, id);
        assert_eq!(f.ts_millis, 3_000);
    }
    assert_eq!(all.len(), 3);
    assert_eq!([&all[0].data[..], &all[1].data[..]].concat(), b"alpha\n");
}

#[test]
fn attach_with_offset_skips_prior() {
    let (engine, id) = finished(&[
        (LogStream::Stdout, b"a"),
        (LogStream::Stdout, b"b"),
        (LogStream::Stdout, b"c"),
    ]);
    let later = frames(&engine, &id, 1);
    assert_eq!(later[0].seq, 1, "first delivered frame must have seq == 1");
    assert_eq!(later.len(), 2);
    assert!(frames(&engine, &id, 1_000_000).is_empty());
}

#[test]
fn attach_live_receives_later_output() {
    let mut engine = engine();
    let id = start(&mut engine, &command_req("echo one; sleep 0.2; echo two")).unwrap();
    let mut stream = engine.attach(&attach_req(&id, 0)).ok().unwrap();
    assert!(matches!(
        stream.next(engine.jobs().get(&id).unwrap()),
        NextFrame::Wait
    ));
    let state = DrainState::begin(true, true);
    let state = engine
        .drain_step(&id, state, data(LogStream::Stdout, b"one"), at(3))
        .0;
    assert!(matches!(
        stream.next(engine.jobs().get(&id).unwrap()),
        NextFrame::Frame(frame) if frame.data == b"one"
    ));
    engine.drain_step(&id, state, data(LogStream::Stdout, b"two"), at(3));
    engine.finish_job(&id, &sid(), JobStatus::Exited { code: 0 }, at(4));
    let job = engine.jobs().get(&id).unwrap();
    assert!(matches!(stream.next(job), NextFrame::Frame(frame) if frame.data == b"two"));
    assert!(matches!(stream.next(job), NextFrame::End));
    assert!(matches!(stream.next(job), NextFrame::End));
}

#[test]
fn status_after_exit_reports_exited() {
    let (engine, id) = finished(&[(LogStream::Stdout, b"hi\n")]);
    let st = engine.status(&status_req(sid(), &id)).expect("status");
    assert_eq!(st.status, JobStatusProto::Exited { code: 0 });
    assert_eq!(st.seq, 1);
}

#[test]
fn attach_wrong_session_returns_not_found() {
    let (engine, id) = finished(&[]);
    let other = SessionId("s_other".into());
    let mut req = attach_req(&id, 0);
    req.session_id = other.clone();
    assert!(matches!(
        engine.attach(&req).err(),
        Some(Error::JobNotFound(_))
    ));
    assert!(matches!(
        engine.status(&status_req(other, &id)).err(),
        Some(Error::JobNotFound(_))
    ));
}

#[test]
fn status_unknown_job_returns_not_found() {
    let engine = engine();
    let status = engine.status(&status_req(sid(), &JobId("j_unknown".into())));
    assert!(matches!(status.err(), Some(Error::JobNotFound(_))));
}

#[test]
fn cancel_wrong_session_returns_not_found() {
    let mut engine = engine();
    let id = start(&mut engine, &command_req("sleep 30")).unwrap();
    let result = engine.cancel(&cancel_req(SessionId("s_wrong".into()), &id));
    assert!(
        matches!(result, Err(Error::JobNotFound(_))),
        "expected JobNotFound for wrong-session cancel, got {result:?}"
    );
    assert!(engine.cancel(&cancel_req(sid(), &id)).unwrap().ok);
}

#[test]
fn cancel_finished_job_returns_ok_false() {
    let (mut engine, id) = finished(&[]);
    let resp = engine.cancel(&cancel_req(sid(), &id)).expect("cancel of finished job");
    assert!(!resp.ok, "cancel of a finished job should return ok=false");
}

#[test]
fn cancel_for_session_kills_all_running() {
    let mut engine = engine();
    let ids: Vec<JobId> = (0..3)
        .map(|_| start(&mut engine, &command_req("sleep 30")).expect("start"))
        .collect();
    let signalled = engine.cancel_for_session(&sid());
    assert_eq!(signalled, ids, "cancel_for_session must signal all 3 running jobs");
    assert!(engine.cancel_for_session(&sid()).is_empty());
}

#[test]
fn audit_records_job_started_and_finished() {
    let (engine, id) = finished(&[(LogStream::Stdout, b"hi\n")]);
    let session = engine.sessions.get(&sid()).expect("session must exist");
    let events = session.audit_events();
    assert!(
        events
            .iter()
            .any(|e| matches!(&e.kind, AuditEventKind::JobStarted { job_id } if job_id == &id)),
        "expected a JobStarted audit event"
    );
    assert!(
        events.iter().any(|e| {
            matches!(&e.kind, AuditEventKind::JobFinished { job_id, status }
                if job_id == &id && *status == JobStatusProto::Exited { code: 0 })
        }),
        "expected a JobFinished(Exited{{code:0}}) audit event"
    );
}

// ── commands that components invoke ──────────────────────────────────────

fn exited(success: bool) -> CommandEvent {
    CommandEvent::Waited(Some(ExitReport {
        success,
        text: "exit status: 2".into(),
    }))
}

fn reason(result: Result<String, Error>) -> String {
    match result {
        Err(Error::JobSpawn { reason }) => reason,
        other => panic!("expected JobSpawn, got {other:?}"),
    }
}

#[test]
fn invoked_command_gives_its_output() {
    let mut run = CommandRun::begin(false, 10).unwrap();
    assert_eq!(run.step(CommandEvent::Poll(false)).unwrap(), CommandAction::Continue);
    run.step(CommandEvent::Data(b"h\xc3".to_vec())).unwrap();
    run.step(exited(true)).unwrap();
    assert!(!run.is_complete(), "its output is not at its end");
    run.step(CommandEvent::Data(b"\xa9".to_vec())).unwrap();
    run.step(CommandEvent::End).unwrap();
    assert!(run.is_complete());
    assert_eq!(run.finish(false).unwrap(), "h\u{e9}");
}

#[test]
fn invoked_command_fails_as_it_ends() {
    assert_eq!(
        reason(CommandRun::begin(true, 10).map(|_| String::new())),
        "capability command cancelled"
    );

    let mut run = CommandRun::begin(false, 10).unwrap();
    assert_eq!(run.step(CommandEvent::Poll(true)).unwrap(), CommandAction::Kill);
    assert_eq!(run.step(CommandEvent::Poll(true)).unwrap(), CommandAction::Continue);
    run.step(exited(true)).unwrap();
    run.step(CommandEvent::End).unwrap();
    assert_eq!(reason(run.finish(false)), "capability command cancelled");

    let mut run = CommandRun::begin(false, 10).unwrap();
    run.step(exited(false)).unwrap();
    run.step(CommandEvent::End).unwrap();
    assert_eq!(
        reason(run.finish(false)),
        "capability command exited with exit status: 2"
    );

    let mut run = CommandRun::begin(false, 10).unwrap();
    run.step(CommandEvent::Data(vec![0xff])).unwrap();
    run.step(exited(true)).unwrap();
    run.step(CommandEvent::End).unwrap();
    let text = reason(run.finish(false));
    assert!(
        text.starts_with("capability stdout was not valid UTF-8: invalid utf-8 sequence"),
        "{text}"
    );

    let run = CommandRun::begin(false, 10).unwrap();
    assert_eq!(
        reason(run.finish(false)),
        "capability command status was not available"
    );

    let mut run = CommandRun::begin(false, 3).unwrap();
    run.step(CommandEvent::Data(b"abc".to_vec())).unwrap();
    assert!(matches!(
        run.step(CommandEvent::Data(b"d".to_vec())),
        Err(Error::LogBufferOverflow { cap: 3 })
    ));
    assert!(matches!(
        run.step(CommandEvent::WaitFailed("gone".into())),
        Err(Error::JobSpawn { .. })
    ));
    assert!(matches!(
        run.step(CommandEvent::ReadFailed("gone".into())),
        Err(Error::JobSpawn { .. })
    ));
}

#[test]
fn jobs_leave_their_session_as_it_was_but_for_its_audit_log() {
    let mut engine = engine();
    let token = engine.sessions.get(&sid()).unwrap().token.expose().to_owned();
    let id = start(&mut engine, &command_req("true")).unwrap();
    engine.finish_job(&id, &sid(), JobStatus::Exited { code: 0 }, at(5));
    let session = engine.sessions.get(&sid()).unwrap();
    assert_eq!(session.tier, EnforcementTier::DevNone);
    assert_eq!(session.workspace.root(), ROOT);
    assert!(session.capabilities.permits(&RuntimeCapability::ProcSpawn));
    assert!(!session.capabilities.permits(&RuntimeCapability::PtyOpen));
    assert!(session.token.verify(&token));
    let kinds: Vec<bool> = session
        .audit_events()
        .iter()
        .map(|e| matches!(e.kind, AuditEventKind::SessionOpened))
        .collect();
    assert_eq!(kinds, vec![true, false, false], "the opening stays first");
}

#[test]
fn policy_opens_the_workspace_and_what_is_granted() {
    let grants = CapabilitySet::new(vec![
        RuntimeCapability::FsWrite("/out".to_owned()),
        RuntimeCapability::Tool("x".to_owned()),
        RuntimeCapability::FsRead("/in".to_owned()),
    ]);
    let policy = build_sandbox_policy(EnforcementTier::KernelLsm, &workspace(), &grants);
    assert_eq!(policy.tier, EnforcementTier::KernelLsm);
    assert_eq!(policy.fs_read, vec![ROOT, "/in"]);
    assert_eq!(policy.fs_write, vec!["/out"]);
    assert!(!policy.allow_proc_spawn && !policy.allow_network);
    let open = CapabilitySet::new(vec![
        RuntimeCapability::NetConnect("a.example".to_owned()),
        RuntimeCapability::ProcSpawn,
    ]);
    let policy = build_sandbox_policy(EnforcementTier::DevNone, &workspace(), &open);
    assert!(policy.allow_proc_spawn && policy.allow_network);
    assert!(policy.fs_write.is_empty());
}

#[test]
fn resumed_replay_completes_the_first_one() {
    let (engine, id) = finished(&[
        (LogStream::Stdout, b"a"),
        (LogStream::Stderr, b"b"),
        (LogStream::Stdout, b"c"),
    ]);
    let whole = frames(&engine, &id, 0);
    assert_eq!(whole.len(), 3);
    for cut in 0..=whole.len() {
        let mut pieced = whole[..cut].to_vec();
        pieced.extend(frames(&engine, &id, cut as u64));
        assert_eq!(pieced, whole, "resumed at {cut}");
    }
}

#[test]
fn output_without_room_leaves_what_was_logged() {
    let mut engine = engine().with_log_byte_cap(4);
    let id = start(&mut engine, &command_req("true")).unwrap();
    let push = |engine: &mut Jobs, bytes: &'static [u8]| {
        engine.push_log(&id, LogStream::Stdout, Bytes::from_static(bytes), at(3))
    };
    assert!(push(&mut engine, b"abc").is_ok());
    assert!(matches!(
        push(&mut engine, b"de"),
        Err(Error::LogBufferOverflow { cap: 4 })
    ));
    assert!(push(&mut engine, b"d").is_ok());
    engine.finish_job(&id, &sid(), JobStatus::Killed, at(4));
    let logged: Vec<u8> = frames(&engine, &id, 0).into_iter().flat_map(|f| f.data).collect();
    assert_eq!(logged, b"abcd");
}

/// Workspaces compare their roots by components.
#[test]
fn workspaces_compare_roots_by_components() {
    let at = |root: &str| Workspace::new(root, Ok(root.to_owned())).unwrap();
    assert_eq!(at("/ws"), at("/ws/"));
    assert_ne!(at("/ws"), at("/ws/src"));
}

/// What a run gives is exactly what was read, in order, and the process is killed
/// at most once.
#[test]
fn run_gives_the_data_of_all_reads() {
    let mut run = CommandRun::begin(false, 6).unwrap();
    for part in ["ab", "", "c", "def"] {
        run.step(CommandEvent::Data(part.as_bytes().to_vec())).unwrap();
        run.step(CommandEvent::Poll(false)).unwrap();
        run.step(CommandEvent::Waited(None)).unwrap();
    }
    run.step(exited(true)).unwrap();
    run.step(CommandEvent::End).unwrap();
    assert_eq!(run.finish(false).unwrap(), "abcdef");

    let mut run = CommandRun::begin(false, 6).unwrap();
    let kills = [false, true, false, true]
        .into_iter()
        .filter(|cancelled| {
            run.step(CommandEvent::Poll(*cancelled)).unwrap() == CommandAction::Kill
        })
        .count();
    assert_eq!(kills, 1);
}
