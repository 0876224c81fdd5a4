//! The JSON-RPC surface: error objects, state, methods and the event stream.

use axp::catalog_provider::CatalogProvider;
use axp::error::Error;
use axp::job::engine::SpawnOutcome;
use axp::job::status::JobStatus;
use axp::job::stream::NextFrame;
use axp::mcp::{McpBridgeCommand, McpToolDescriptor, McpToolProvider};
use axp::proto::capability::Capability;
use axp::proto::discovery::{DescribeRequest, IndexRequest};
use axp::proto::ids::{JobId, SessionId};
use axp::proto::job::{
    JobAttachRequest, JobCancelRequest, JobPayload, JobStartRequest, JobStatusProto,
    JobStatusRequest,
};
use axp::proto::session::{
    SessionAuditEventKind, SessionAuditRequest, SessionCloseRequest, SessionOpenRequest,
};
use axp::proto::tier::EnforcementTier;
use axp::registry::ProviderRegistry;
use axp::time::Timestamp;
use axp::transport::attach::{attach, http_status, resume_from};
use axp::transport::error::TransportError;
use axp::transport::handlers::{
    describe, index, job_cancel, job_start, job_status, session_audit, session_close,
    session_open, session_open_with,
};
use axp::transport::jsonrpc::{
    JsonRpcBody, JsonRpcError, JsonRpcResponse, DENIED, INTERNAL_ERROR, INVALID_PARAMS,
    INVALID_REQUEST, METHOD_NOT_FOUND, NOT_FOUND, NOT_IMPLEMENTED, PARSE_ERROR, UNAUTHORIZED,
};
use axp::transport::router::{answer_unparsed, dispatch, route, Route};
use axp::transport::state::{static_mcp_bridge_args, AppState};

type State = AppState<CatalogProvider>;

fn json(text: &str) -> serde_json::Value {
    serde_json::from_str(text).expect("json")
}

fn code(error: Error) -> i64 {
    TransportError::Runtime(error).to_jsonrpc_error().code
}

#[test]
fn session_not_found_maps_to_not_found() {
    assert_eq!(code(Error::SessionNotFound(SessionId("x".into()))), NOT_FOUND);
}

#[test]
fn job_not_found_maps_to_not_found() {
    assert_eq!(code(Error::JobNotFound(JobId("j_1".into()))), NOT_FOUND);
}

#[test]
fn capability_not_found_maps_to_not_found() {
    assert_eq!(code(Error::CapabilityNotFound { name: "foo".into() }), NOT_FOUND);
}

#[test]
fn capability_denied_maps_to_denied() {
    assert_eq!(
        code(Error::CapabilityDenied {
            required: "fs:read".into(),
        }),
        DENIED
    );
}

#[test]
fn not_implemented_maps_correctly() {
    assert_eq!(code(Error::NotImplemented("foo::bar")), NOT_IMPLEMENTED);
}

#[test]
fn not_implemented_display() {
    let err = Error::NotImplemented("foo::bar");
    assert_eq!(err.text(), "not yet implemented: foo::bar");
}

#[test]
fn log_buffer_overflow_maps_to_internal_error() {
    assert_eq!(code(Error::LogBufferOverflow { cap: 1 }), INTERNAL_ERROR);
}

#[test]
fn job_spawn_maps_to_internal_error() {
    assert_eq!(
        code(Error::JobSpawn {
            reason: "no such binary".into(),
        }),
        INTERNAL_ERROR
    );
}

#[test]
fn invalid_workspace_maps_to_invalid_params() {
    assert_eq!(
        code(Error::InvalidWorkspace {
            path: "/bad".into(),
            reason: "not a dir".into(),
        }),
        INVALID_PARAMS
    );
}

#[test]
fn malformed_grants_and_escapes_map_to_invalid_params() {
    assert_eq!(
        code(Error::CapabilityParse {
            raw: "x".into(),
            reason: "y".into()
        }),
        INVALID_PARAMS
    );
    assert_eq!(
        code(Error::WorkspaceViolation { path: "/".into() }),
        INVALID_PARAMS
    );
}

#[test]
fn unauthorized_maps_to_unauthorized_code() {
    let err = TransportError::Unauthorized;
    assert_eq!(err.to_jsonrpc_error().code, UNAUTHORIZED);
}

#[test]
fn unauthorized_message_is_generic() {
    let err = TransportError::Unauthorized;
    assert_eq!(err.to_jsonrpc_error().message, "unauthorized");
}

#[test]
fn parse_error_carries_parse_error_code() {
    let err = TransportError::Parse("unexpected token".into());
    assert_eq!(err.to_jsonrpc_error().code, PARSE_ERROR);
    assert_eq!(err.text(), "parse error: unexpected token");
}

#[test]
fn invalid_params_and_internal_errors_say_so() {
    let params = TransportError::InvalidParams("p".into()).to_jsonrpc_error();
    assert_eq!((params.code, params.message.as_str()), (INVALID_PARAMS, "invalid params: p"));
    let internal = TransportError::Internal("i".into()).to_jsonrpc_error();
    assert_eq!(
        (internal.code, internal.message.as_str()),
        (INTERNAL_ERROR, "internal error: i")
    );
}

#[test]
fn message_comes_from_display() {
    let err = TransportError::Runtime(Error::SessionNotFound(SessionId("abc".into())));
    let je = err.to_jsonrpc_error();
    assert!(
        je.message.contains("abc"),
        "expected id in message: {}",
        je.message
    );
}

#[test]
fn data_is_always_none() {
    let err = TransportError::Runtime(Error::SessionNotFound(SessionId("x".into())));
    assert!(err.to_jsonrpc_error().data.is_none());
}

// ── state ────────────────────────────────────────────────────────────────

fn new_state() -> State {
    AppState::new()
}

#[test]
fn next_session_id_is_unique_and_prefixed() {
    let mut state = new_state();
    let id1 = state.next_session_id();
    let id2 = state.next_session_id();
    assert!(
        id1.as_str().starts_with("s_"),
        "expected s_ prefix: {}",
        id1.as_str()
    );
    assert_ne!(id1, id2, "consecutive ids must differ");
}

#[test]
fn next_session_id_starts_at_one() {
    let mut state = new_state();
    let id = state.next_session_id();
    assert_eq!(id.as_str(), "s_1");
}

#[test]
fn with_registry_exposes_supplied_registry_and_starts_counter_at_one() {
    let mut registry = ProviderRegistry::new();
    let provider = McpToolProvider::new(
        "docs".to_owned(),
        vec![McpToolDescriptor {
            provider_id: "docs".to_owned(),
            name: "search".to_owned(),
            desc: "Search documentation with an external MCP bridge".to_owned(),
            schema: json(r#"{"type": "object", "additionalProperties": true}"#),
            bridge: McpBridgeCommand {
                program: "axp-mcp-bridge".to_owned(),
                args: static_mcp_bridge_args(),
            },
        }],
    )
    .ok()
    .expect("valid MCP provider");
    registry.register(provider).expect("valid registry provider");

    let mut state = AppState::with_registry(registry);

    let listed = state.engine.registry.index().expect("registry index");
    assert!(listed.entries.iter().any(|entry| entry.name == "search"));
    assert_eq!(state.next_session_id().as_str(), "s_1");
}

#[test]
fn with_mcp_tool_registers_static_mount() {
    let state = AppState::with_mcp_tool(
        "docs".to_owned(),
        "search".to_owned(),
        "Search documentation with an external MCP bridge".to_owned(),
        "axp-mcp-bridge".to_owned(),
    )
    .ok()
    .expect("valid MCP mount");

    let detail = state
        .engine
        .registry
        .describe("search")
        .expect("registered MCP tool");
    assert_eq!(
        detail.schema,
        json(r#"{"type": "object", "additionalProperties": true}"#)
    );
    let command = state.engine.registry.resolve("search", &json("{}")).unwrap();
    assert_eq!(command.program, "axp-mcp-bridge");
    assert_eq!(command.args[0], "call");
}

#[test]
fn poor_mount_is_refused() {
    let refused = AppState::with_mcp_tool(
        "docs".to_owned(),
        "search".to_owned(),
        "short".to_owned(),
        "axp-mcp-bridge".to_owned(),
    );
    assert!(matches!(refused.err(), Some(Error::DescriptionQuality { .. })));
}

// ── methods ──────────────────────────────────────────────────────────────

fn at(secs: u64) -> Timestamp {
    Timestamp::after_epoch(secs, 0)
}

fn open_request(capabilities: &[&str]) -> SessionOpenRequest {
    SessionOpenRequest {
        workspace: "/ws".to_owned(),
        sandbox_tier: EnforcementTier::DevNone,
        capabilities: capabilities
            .iter()
            .map(|c| Capability(c.to_string()))
            .collect(),
    }
}

fn open(state: &mut State, capabilities: &[&str]) -> (SessionId, String) {
    let response = session_open(state, &open_request(capabilities), Ok("/ws".to_owned()), at(1))
        .ok()
        .expect("open");
    (response.session_id, response.cap_token)
}

#[test]
fn session_open_returns_session_id_with_s_prefix() {
    let mut state = new_state();
    let (id, token) = open(&mut state, &["proc.spawn"]);
    assert_eq!(id.as_str(), "s_1");
    assert!(token.starts_with("ct_"));
    let (second, other) = open(&mut state, &[]);
    assert_eq!(second.as_str(), "s_2");
    assert_ne!(token, other);
}

#[test]
fn session_open_refuses_bad_requests() {
    let mut state = new_state();
    let gone = session_open(&mut state, &open_request(&[]), Err("gone".to_owned()), at(1));
    assert!(matches!(
        gone,
        Err(TransportError::Runtime(Error::InvalidWorkspace { .. }))
    ));
    let malformed = session_open(
        &mut state,
        &open_request(&["fs.read(x)"]),
        Ok("/ws".to_owned()),
        at(1),
    );
    assert!(matches!(
        malformed,
        Err(TransportError::Runtime(Error::CapabilityParse { .. }))
    ));
    assert_eq!(state.session_counter, 1);
    let starved = session_open_with(
        &mut state,
        &open_request(&[]),
        Ok("/ws".to_owned()),
        Err(Error::Entropy),
        at(1),
    );
    assert!(matches!(starved, Err(TransportError::Runtime(Error::Entropy))));
    assert_eq!(state.session_counter, 2, "its number is used up");
}

fn names(state: &State, id: &SessionId, token: &str) -> Vec<String> {
    let mut names: Vec<String> = index(
        state,
        &IndexRequest {
            session_id: id.clone(),
            cap_token: token.to_owned(),
        },
    )
    .ok()
    .expect("index")
    .entries
    .into_iter()
    .map(|e| e.name)
    .collect();
    names.sort();
    names
}

#[test]
fn index_valid_session_returns_builtin_entries() {
    let mut state = new_state();
    let (id, token) = open(&mut state, &["proc.spawn"]);
    assert_eq!(names(&state, &id, &token), vec!["git_diff", "git_log"]);
}

#[test]
fn index_unknown_session_returns_unauthorized() {
    let state = new_state();
    let result = index(
        &state,
        &IndexRequest {
            session_id: SessionId("s_unknown".into()),
            cap_token: "ct_whatever".into(),
        },
    );
    let error = result.err().expect("refused").to_jsonrpc_error();
    assert_eq!(error.code, UNAUTHORIZED);
}

#[test]
fn index_tool_grant_returns_only_matching_capability() {
    let mut state = new_state();
    let (id, token) = open(&mut state, &["tool:git_diff"]);
    assert_eq!(names(&state, &id, &token), vec!["git_diff"]);
}

fn describe_code(state: &State, id: &SessionId, token: &str, name: &str) -> Result<String, i64> {
    describe(
        state,
        &DescribeRequest {
            session_id: id.clone(),
            cap_token: token.to_owned(),
            name: name.to_owned(),
        },
    )
    .map(|detail| detail.signature)
    .map_err(|e| e.to_jsonrpc_error().code)
}

#[test]
fn describe_unknown_capability_returns_not_found() {
    let mut state = new_state();
    let (id, token) = open(&mut state, &["proc.spawn"]);
    assert_eq!(describe_code(&state, &id, &token, "nonexistent_cap"), Err(NOT_FOUND));
}

#[test]
fn describe_bad_token_returns_unauthorized() {
    let mut state = new_state();
    let (id, _token) = open(&mut state, &["proc.spawn"]);
    assert_eq!(describe_code(&state, &id, "ct_wrong", "git_diff"), Err(UNAUTHORIZED));
}

#[test]
fn describe_tool_grant_returns_matching_capability_detail() {
    let mut state = new_state();
    let (id, token) = open(&mut state, &["tool:git_diff"]);
    assert_eq!(
        describe_code(&state, &id, &token, "git_diff"),
        Ok("git_diff(): string".to_owned())
    );
}

#[test]
fn describe_tool_grant_hides_other_capabilities() {
    let mut state = new_state();
    let (id, token) = open(&mut state, &["tool:git_diff"]);
    assert_eq!(describe_code(&state, &id, &token, "git_log"), Err(NOT_FOUND));
}

fn start(state: &mut State, id: &SessionId, token: &str) -> Result<JobId, TransportError> {
    job_start(
        state,
        &JobStartRequest {
            session_id: id.clone(),
            cap_token: token.to_owned(),
            payload: JobPayload::Command {
                command: "echo hi".to_owned(),
            },
            cwd: None,
            capabilities: vec![],
        },
        Some("/ws".to_owned()),
        SpawnOutcome::Spawned,
        at(2),
    )
    .map(|response| response.job_id)
}

#[test]
fn job_start_returns_job_id() {
    let mut state = new_state();
    let (id, token) = open(&mut state, &["proc.spawn"]);
    let job = start(&mut state, &id, &token).ok().expect("start");
    assert_eq!(job.as_str(), "j_1");
}

#[test]
fn every_method_asks_for_the_token() {
    let mut state = new_state();
    let (id, token) = open(&mut state, &["proc.spawn"]);
    let job = start(&mut state, &id, &token).ok().unwrap();
    let wrong = "ct_wrong".to_owned();
    assert!(matches!(
        start(&mut state, &id, &wrong),
        Err(TransportError::Unauthorized)
    ));
    assert!(matches!(
        job_status(
            &state,
            &JobStatusRequest {
                session_id: id.clone(),
                cap_token: wrong.clone(),
                job_id: job.clone()
            }
        ),
        Err(TransportError::Unauthorized)
    ));
    assert!(matches!(
        job_cancel(
            &mut state,
            &JobCancelRequest {
                session_id: id.clone(),
                cap_token: wrong.clone(),
                job_id: job.clone()
            }
        ),
        Err(TransportError::Unauthorized)
    ));
    assert!(matches!(
        session_audit(
            &state,
            &SessionAuditRequest {
                session_id: id.clone(),
                cap_token: wrong.clone()
            }
        ),
        Err(TransportError::Unauthorized)
    ));
    assert!(matches!(
        session_close(
            &mut state,
            &SessionCloseRequest {
                session_id: id.clone(),
                cap_token: wrong
            },
            at(3)
        ),
        Err(TransportError::Unauthorized)
    ));
    let again = job_cancel(
        &mut state,
        &JobCancelRequest {
            session_id: id,
            cap_token: token,
            job_id: job,
        },
    );
    assert!(again.ok().unwrap().ok, "refused requests changed nothing");
}

#[test]
fn closing_cancels_jobs_and_revokes_the_token() {
    let mut state = new_state();
    let (id, token) = open(&mut state, &["proc.spawn"]);
    let job = start(&mut state, &id, &token).ok().unwrap();
    let closed = session_close(
        &mut state,
        &SessionCloseRequest {
            session_id: id.clone(),
            cap_token: token.clone(),
        },
        at(3),
    )
    .ok()
    .expect("close");
    assert!(closed.response.ok);
    assert_eq!(closed.signalled, vec![job]);
    assert!(matches!(
        start(&mut state, &id, &token),
        Err(TransportError::Unauthorized)
    ));
}

#[test]
fn audit_log_is_shown_in_wire_form() {
    let mut state = new_state();
    let (id, token) = open(&mut state, &["proc.spawn"]);
    let job = start(&mut state, &id, &token).ok().unwrap();
    state
        .engine
        .finish_job(&job, &id, JobStatus::Exited { code: 7 }, at(9));
    let events = session_audit(
        &state,
        &SessionAuditRequest {
            session_id: id,
            cap_token: token,
        },
    )
    .ok()
    .unwrap()
    .events;
    assert_eq!(events.len(), 3);
    assert_eq!(events[0].kind, SessionAuditEventKind::SessionOpened);
    assert_eq!(events[0].ts_millis, 1_000);
    assert_eq!(
        events[1].kind,
        SessionAuditEventKind::JobStarted { job_id: job.clone() }
    );
    assert_eq!(
        events[2].kind,
        SessionAuditEventKind::JobFinished {
            job_id: job,
            status: JobStatusProto::Exited { code: 7 }
        }
    );
    assert_eq!(events[2].ts_millis, 9_000);
}

// ── routing ──────────────────────────────────────────────────────────────

fn failure(response: JsonRpcResponse) -> JsonRpcError {
    match response.body {
        JsonRpcBody::Failure { error } => error,
        JsonRpcBody::Success { result } => panic!("expected an error, got {result}"),
    }
}

#[test]
fn handlers_unknown_method_returns_method_not_found() {
    let response = dispatch(Some(json("1")), "frobnicate", Ok(json("null")));
    let error = failure(response);
    assert_eq!(error.code, METHOD_NOT_FOUND);
    assert_eq!(error.message, "method not found: frobnicate");
}

#[test]
fn job_attach_directs_to_streaming_endpoint() {
    let error = failure(dispatch(Some(json("1")), "job.attach", Ok(json("null"))));
    assert_eq!(error.code, INVALID_REQUEST);
    assert!(error.message.contains("GET /job/attach"));
}

#[test]
fn response_id_echoes_request_id() {
    let response = dispatch(Some(json("99")), "session.open", Ok(json("{}")));
    assert_eq!(response.id, json("99"), "id must be echoed verbatim");
    assert_eq!(response.jsonrpc, "2.0");
    assert!(matches!(response.body, JsonRpcBody::Success { .. }));
}

#[test]
fn null_id_when_request_has_no_id() {
    let response = dispatch(None, "job.start", Err(TransportError::Unauthorized));
    assert_eq!(response.id, serde_json::Value::Null);
    assert_eq!(failure(response).code, UNAUTHORIZED);
}

#[test]
fn unparsed_body_is_answered_with_a_null_id() {
    let response = answer_unparsed("expected value".to_owned());
    assert!(response.id.is_null());
    let error = failure(response);
    assert_eq!(error.code, PARSE_ERROR);
    assert_eq!(error.message, "parse error: expected value");
}

#[test]
fn each_method_has_its_route() {
    let routes = [
        ("session.open", Route::SessionOpen),
        ("session.close", Route::SessionClose),
        ("session.audit", Route::SessionAudit),
        ("axp.index", Route::Index),
        ("axp.describe", Route::Describe),
        ("job.start", Route::JobStart),
        ("job.status", Route::JobStatus),
        ("job.cancel", Route::JobCancel),
        ("job.attach", Route::JobAttach),
        ("job.Attach", Route::Unknown),
    ];
    for (method, expected) in routes {
        assert_eq!(route(method), expected, "{method}");
    }
}

// ── the event stream ─────────────────────────────────────────────────────

fn finished_job() -> (State, JobAttachRequest) {
    let mut state = new_state();
    let (id, token) = open(&mut state, &["proc.spawn"]);
    let job = start(&mut state, &id, &token).ok().unwrap();
    state
        .engine
        .push_text_result(&job, axp::job::log::LogStream::Stdout, "hello", at(3))
        .unwrap();
    state
        .engine
        .finish_job(&job, &id, JobStatus::Exited { code: 0 }, at(4));
    let req = JobAttachRequest {
        session_id: id,
        cap_token: token,
        job_id: job,
        from_offset: 0,
    };
    (state, req)
}

fn replayed(state: &State, req: &JobAttachRequest, last_event_id: Option<&str>) -> Vec<u8> {
    let mut stream = attach(state, req, last_event_id).ok().expect("attach");
    let job = state.engine.jobs().get(&req.job_id).unwrap();
    let mut out = Vec::new();
    while let NextFrame::Frame(frame) = stream.next(job) {
        out.extend_from_slice(&frame.data);
    }
    out
}

#[test]
fn attach_last_event_id_header_overrides_from_offset() {
    let (state, req) = finished_job();
    assert_eq!(replayed(&state, &req, None), b"hello\n");
    assert!(replayed(&state, &req, Some("1000000")).is_empty());
}

#[test]
fn attach_malformed_last_event_id_falls_back_to_from_offset() {
    let (state, req) = finished_job();
    assert_eq!(replayed(&state, &req, Some("not-a-number")), b"hello\n");
}

#[test]
fn attach_resume_past_last_seq_omits_earlier_frames() {
    let (state, mut req) = finished_job();
    req.from_offset = 1_000_000;
    assert!(replayed(&state, &req, None).is_empty());
}

#[test]
fn attach_unknown_job_returns_not_found() {
    let (state, mut req) = finished_job();
    req.job_id = JobId("j_nope".to_owned());
    let error = attach(&state, &req, None).err().expect("refused").to_jsonrpc_error();
    assert_eq!(http_status(error.code), 404);
}

#[test]
fn attach_bad_token_does_not_stream_logs() {
    let (state, mut req) = finished_job();
    req.cap_token = "ct_wrong_token".to_owned();
    let error = attach(&state, &req, None).err().expect("refused").to_jsonrpc_error();
    assert_eq!(http_status(error.code), 401);
}

#[test]
fn error_codes_have_http_statuses() {
    assert_eq!(http_status(DENIED), 403);
    assert_eq!(http_status(INVALID_PARAMS), 400);
    assert_eq!(http_status(INTERNAL_ERROR), 500);
    assert_eq!(http_status(0), 500);
}

#[test]
fn last_event_id_is_read_as_the_standard_library_does() {
    for text in [
        "0", "7", "+7", "007", "18446744073709551615", "18446744073709551616", "", "+", "-1",
        " 1", "1 ", "++1", "1.0", "0x1", "\u{661}",
    ] {
        let expected = text.parse::<u64>().unwrap_or(42);
        assert_eq!(resume_from(Some(text), 42), expected, "{text:?}");
    }
    assert_eq!(resume_from(None, 42), 42);
}

#[test]
fn default_state_is_a_new_one() {
    let state: State = State::default();
    let mut names: Vec<String> =
        state.engine.registry.index().unwrap().entries.into_iter().map(|e| e.name).collect();
    names.sort();
    assert_eq!(names, vec!["git_diff", "git_log"]);
}
