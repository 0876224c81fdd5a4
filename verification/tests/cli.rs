//! What the command line decides.

use axp::cli::demo::{
    join_frames, judge_replay, least_name, next_pause, open_request, DemoAction, DemoEvent,
    DemoState, RuntimeArgs, DEFAULT_POLL_INTERVAL_MS, DEFAULT_POLL_TIMEOUT_MS, RUNTIME_MARKER,
};
use axp::cli::mcp_config::{BridgeConfig, McpConfigFile, ToolConfig};
use axp::cli::mount::{mcp_mount, MountFlags, MountSource};
use axp::cli::report::{
    duration_ms, format_human_measurement, is_success_status, is_terminal, status_label,
    RuntimeMeasurement, RuntimeStepDurations,
};
use axp::json::open_object_schema;
use axp::proto::discovery::{CapabilityDetail, IndexEntry, IndexResponse};
use axp::proto::ids::{JobId, SessionId};
use axp::proto::job::{JobPayload, JobStatusProto, LogEventFrame, LogStreamProto};
use axp::proto::session::SessionOpenResponse;
use axp::proto::tier::EnforcementTier;
use axp::transport::state::{static_mcp_bridge_args, AppState};

#[test]
fn status_labels_include_terminal_details() {
    assert_eq!(
        status_label(&JobStatusProto::Exited { code: 0 }),
        "exited:0"
    );
    assert_eq!(
        status_label(&JobStatusProto::Failed {
            reason: "nope".to_owned()
        }),
        "failed:nope"
    );
    assert_eq!(
        status_label(&JobStatusProto::Exited { code: -9 }),
        "exited:-9"
    );
    assert_eq!(status_label(&JobStatusProto::Pending), "pending");
    assert_eq!(status_label(&JobStatusProto::Running), "running");
    assert_eq!(status_label(&JobStatusProto::Killed), "killed");
}

#[test]
fn success_status_requires_zero_exit() {
    assert!(is_success_status(&JobStatusProto::Exited { code: 0 }));
    assert!(!is_success_status(&JobStatusProto::Exited { code: 2 }));
    assert!(!is_success_status(&JobStatusProto::Killed));
}

fn runtime_measurement() -> RuntimeMeasurement {
    RuntimeMeasurement {
        total_ms: 12,
        steps: RuntimeStepDurations {
            session_open_ms: 1,
            index_ms: 2,
            describe_ms: 3,
            job_start_ms: 4,
            job_status_poll_ms: 5,
            job_attach_ms: 6,
        },
        catalog_count: 7,
        described_capability: "proc.spawn".to_owned(),
        described_signature: "sig".to_owned(),
        terminal_job_status: "exited:0".to_owned(),
        status_poll_count: 2,
        log_replay_success: true,
        attach_bytes: 18,
        log_marker: "axp-runtime-smoke".to_owned(),
        log_text: "axp-runtime-smoke".to_owned(),
    }
}

#[test]
fn measurement_renders_as_human_readable_lines() {
    let measurement = runtime_measurement();
    let expected = [
        "runtime ok\n",
        "total_ms=12\n",
        "session_open_ms=1\n",
        "index_ms=2\n",
        "describe_ms=3\n",
        "job_start_ms=4\n",
        "job_status_poll_ms=5\n",
        "job_attach_ms=6\n",
        "catalog_count=7\n",
        "described=proc.spawn\n",
        "signature=sig\n",
        "job_status=exited:0\n",
        "status_poll_count=2\n",
        "log_replay_success=true\n",
        "attach_bytes=18\n",
        "log_marker=axp-runtime-smoke\n",
        "log=axp-runtime-smoke\n",
    ]
    .concat();
    assert_eq!(format_human_measurement(&measurement), expected);
}

#[test]
fn runtime_args_have_defaults() {
    let args = RuntimeArgs::default();
    assert_eq!(args.addr, "http://127.0.0.1:7300");
    assert!(!args.json);
    assert_eq!(args.poll_timeout_ms, DEFAULT_POLL_TIMEOUT_MS);
    assert_eq!(args.poll_interval_ms, DEFAULT_POLL_INTERVAL_MS);
}

#[test]
fn durations_saturate() {
    assert_eq!(duration_ms(0), 0);
    assert_eq!(duration_ms(u64::MAX as u128), u64::MAX);
    assert_eq!(duration_ms(u64::MAX as u128 + 1), u64::MAX);
    assert!(is_terminal(&JobStatusProto::Killed));
    assert!(!is_terminal(&JobStatusProto::Running));
}

// ── mounts ───────────────────────────────────────────────────────────────

fn flags() -> MountFlags {
    MountFlags {
        mcp_provider: None,
        mcp_tool: None,
        mcp_desc: None,
        mcp_bridge: None,
        mcp_config: None,
    }
}

#[test]
fn default_serve_has_no_mcp_tool_mount() {
    assert_eq!(mcp_mount(flags()).expect("valid default"), None);
}

#[test]
fn partial_mcp_tool_mount_is_rejected() {
    let err = mcp_mount(MountFlags {
        mcp_provider: Some("docs".to_owned()),
        ..flags()
    })
    .expect_err("partial MCP args must fail");
    assert!(err.contains("must be supplied together"));
}

#[test]
fn mcp_config_rejects_static_mcp_flags() {
    let err = mcp_mount(MountFlags {
        mcp_provider: Some("docs".to_owned()),
        mcp_config: Some("mcp.json".to_owned()),
        ..flags()
    })
    .expect_err("mixed MCP config and static flags must fail");
    assert!(err.contains("cannot be combined"));
}

#[test]
fn complete_flags_name_their_mount() {
    let tool = mcp_mount(MountFlags {
        mcp_provider: Some("docs".to_owned()),
        mcp_tool: Some("search".to_owned()),
        mcp_desc: Some("Search documentation".to_owned()),
        mcp_bridge: Some("bridge".to_owned()),
        mcp_config: None,
    });
    match tool {
        Ok(Some(MountSource::Tool(tool))) => {
            assert_eq!(tool.provider_id, "docs");
            assert_eq!(tool.tool_name, "search");
            assert_eq!(tool.desc, "Search documentation");
            assert_eq!(tool.bridge_program, "bridge");
        }
        other => panic!("expected a tool, got {other:?}"),
    }
    let config = mcp_mount(MountFlags {
        mcp_config: Some("mcp.json".to_owned()),
        ..flags()
    });
    assert_eq!(config, Ok(Some(MountSource::Config("mcp.json".to_owned()))));
}

const TOOL_DESC: &str = "Search documentation with an external MCP bridge";

fn config(provider: &str, program: &str, tools: &[(&str, &str)]) -> McpConfigFile {
    McpConfigFile {
        provider: provider.to_owned(),
        bridge: BridgeConfig {
            program: program.to_owned(),
            args: static_mcp_bridge_args(),
        },
        tools: tools
            .iter()
            .map(|(name, desc)| ToolConfig {
                name: name.to_string(),
                desc: desc.to_string(),
                schema: open_object_schema(),
            })
            .collect(),
    }
}

#[test]
fn load_defaults_schema_and_bridge_args() {
    let mount = config("docs", "axp-mcp-bridge", &[("search", TOOL_DESC)])
        .into_mount()
        .expect("config");
    assert_eq!(mount.provider_id, "docs");
    assert_eq!(mount.bridge_program, "axp-mcp-bridge");
    assert_eq!(mount.bridge_args, vec!["call"]);
    assert_eq!(mount.tools.len(), 1);
    let schema: serde_json::Value =
        serde_json::from_str(r#"{"type": "object", "additionalProperties": true}"#).unwrap();
    assert_eq!(mount.tools[0].schema, schema);
}

#[test]
fn load_preserves_supplied_bridge_args() {
    let mut file = config("docs", "axp-mcp-bridge", &[("search", TOOL_DESC)]);
    file.bridge.args = vec!["invoke".to_owned(), "--json".to_owned()];
    let mount = file.into_mount().expect("config");
    assert_eq!(mount.bridge_args, vec!["invoke", "--json"]);
}

#[test]
fn load_rejects_empty_tools() {
    let err = config("docs", "axp-mcp-bridge", &[])
        .into_mount()
        .expect_err("empty tools must fail");
    assert!(err.contains("at least one tool"));
}

#[test]
fn load_rejects_empty_public_fields() {
    for (file, expected) in [
        (config("", "axp-mcp-bridge", &[("search", TOOL_DESC)]), "provider"),
        (config("docs", "", &[("search", TOOL_DESC)]), "bridge.program"),
        (config("docs", "axp-mcp-bridge", &[("", TOOL_DESC)]), "tool[0].name"),
        (config("docs", "axp-mcp-bridge", &[("search", "")]), "tool[0].desc"),
        (
            config("docs", "axp-mcp-bridge", &[("search", TOOL_DESC), ("x", " \t")]),
            "MCP config tool[1].desc must not be empty",
        ),
    ] {
        let err = file.into_mount().expect_err("empty field must fail");
        assert!(err.contains(expected), "expected `{expected}` in `{err}`");
    }
}

#[test]
fn configured_tools_are_mounted_beside_the_builtins() {
    let mount = config(
        "docs",
        "axp-mcp-bridge",
        &[
            ("search", TOOL_DESC),
            ("lookup", "Lookup documentation pages with an external MCP bridge"),
        ],
    )
    .into_mount()
    .unwrap();
    let state = AppState::with_mcp_tools(
        mount.provider_id,
        mount.bridge_program,
        mount.bridge_args,
        mount.tools,
    )
    .ok()
    .expect("mount");
    let mut names: Vec<String> = state
        .engine
        .registry
        .index()
        .unwrap()
        .entries
        .into_iter()
        .map(|e| e.name)
        .collect();
    names.sort();
    assert_eq!(names, vec!["git_diff", "git_log", "lookup", "search"]);
    for name in names {
        let detail = state.engine.registry.describe(&name).expect("listed");
        assert!(detail.signature.starts_with(&name), "{name}");
    }
}

// ── the demo ─────────────────────────────────────────────────────────────

const MS: u128 = 1_000_000;

fn session() -> SessionOpenResponse {
    SessionOpenResponse {
        session_id: SessionId("s_1".to_owned()),
        granted_tier: EnforcementTier::DevNone,
        cap_token: "ct_x".to_owned(),
    }
}

fn entries(names: &[&str]) -> Vec<IndexEntry> {
    names
        .iter()
        .map(|name| IndexEntry {
            name: name.to_string(),
            desc: "d".to_owned(),
        })
        .collect()
}

fn step(state: DemoState, event: DemoEvent) -> (DemoState, DemoAction) {
    state.step(event, 100 * MS, 30 * MS)
}

fn described() -> DemoState {
    let (state, _) = step(DemoState::Opening, DemoEvent::Opened { session: session(), ms: 1 });
    let index = IndexResponse {
        entries: entries(&["git_log", "git_diff"]),
    };
    let (state, action) = step(state, DemoEvent::Indexed { index, ms: 2 });
    assert!(matches!(action, DemoAction::Describe(req) if req.name == "git_diff"));
    let detail = CapabilityDetail {
        signature: "git_diff(): string".to_owned(),
        schema: open_object_schema(),
    };
    let (state, action) = step(state, DemoEvent::Described { detail, ms: 3 });
    match action {
        DemoAction::Start(req) => match req.payload {
            JobPayload::Command { command } => {
                assert_eq!(command, format!("printf '{RUNTIME_MARKER}\\n'"));
            }
            other => panic!("expected a command, got {other:?}"),
        },
        other => panic!("expected Start, got {other:?}"),
    }
    state
}

fn polling() -> DemoState {
    let (state, action) = step(
        described(),
        DemoEvent::Started { job_id: JobId("j_1".to_owned()), ms: 4 },
    );
    assert!(matches!(action, DemoAction::Poll(req) if req.job_id.as_str() == "j_1"));
    state
}

fn polled(status: JobStatusProto, elapsed: u128) -> DemoEvent {
    DemoEvent::Polled { status, elapsed, ms: 5 }
}

fn log_frame(seq: u64, data: &[u8]) -> LogEventFrame {
    LogEventFrame {
        job_id: JobId("j_1".to_owned()),
        seq,
        stream: LogStreamProto::Stdout,
        data: data.to_vec(),
        ts_millis: 0,
    }
}

#[test]
fn demo_that_goes_well_is_measured_and_closed() {
    let (state, action) = step(polling(), polled(JobStatusProto::Running, 10 * MS));
    assert!(matches!(action, DemoAction::Sleep(n) if n == 30 * MS));
    let (state, action) = step(state, DemoEvent::Slept);
    assert!(matches!(action, DemoAction::Poll(_)));
    let (state, action) = step(state, polled(JobStatusProto::Exited { code: 0 }, 40 * MS));
    assert!(matches!(action, DemoAction::Attach(req) if req.from_offset == 0));
    let (state, action) = step(
        state,
        DemoEvent::Attached {
            frames: vec![log_frame(0, b"axp-runtime"), log_frame(1, b"-smoke\n\xff \n")],
            ms: 6,
            total_ms: 12,
        },
    );
    match action {
        DemoAction::Print(m) => {
            assert_eq!(m.total_ms, 12);
            assert_eq!(m.steps, runtime_measurement().steps);
            assert_eq!(m.catalog_count, 2);
            assert_eq!(m.described_capability, "git_diff");
            assert_eq!(m.described_signature, "git_diff(): string");
            assert_eq!(m.terminal_job_status, "exited:0");
            assert_eq!(m.status_poll_count, 2);
            assert_eq!(m.attach_bytes, 21);
            assert_eq!(m.log_text, "axp-runtime-smoke\n\u{fffd}");
            assert!(m.log_replay_success);
        }
        other => panic!("expected Print, got {other:?}"),
    }
    let (state, action) = step(state, DemoEvent::Printed);
    assert!(matches!(action, DemoAction::Close(req) if req.cap_token == "ct_x"));
    let (state, action) = step(state, DemoEvent::Closed);
    assert!(matches!(action, DemoAction::Finish));
    assert!(matches!(state, DemoState::Done(Ok(()))));
}

fn outcome_after_close(state: DemoState) -> String {
    let (state, action) = step(state, DemoEvent::Failed("close failed".to_owned()));
    assert!(matches!(action, DemoAction::Finish));
    match state {
        DemoState::Done(Err(reason)) => reason,
        other => panic!("expected a failure, got {other:?}"),
    }
}

#[test]
fn demo_times_out_by_cancelling_and_closing() {
    let (state, action) = step(polling(), polled(JobStatusProto::Running, 100 * MS));
    assert!(matches!(action, DemoAction::Cancel(req) if req.job_id.as_str() == "j_1"));
    let (state, action) = step(state, DemoEvent::Cancelled);
    assert!(matches!(action, DemoAction::Close(_)));
    assert_eq!(
        outcome_after_close(state),
        "job did not reach a terminal state within timeout"
    );
}

#[test]
fn demo_failures_close_the_session_and_keep_their_reason() {
    let (state, action) = step(polling(), polled(JobStatusProto::Exited { code: 3 }, MS));
    assert!(matches!(action, DemoAction::Close(_)));
    assert_eq!(
        outcome_after_close(state),
        "job reached non-success terminal status: exited:3"
    );

    let (state, _) = step(polling(), polled(JobStatusProto::Exited { code: 0 }, MS));
    let (state, _) = step(
        state,
        DemoEvent::Attached { frames: vec![log_frame(0, b"else")], ms: 0, total_ms: 0 },
    );
    assert_eq!(
        outcome_after_close(state),
        "attached log replay did not contain runtime marker"
    );

    let (state, _) = step(DemoState::Opening, DemoEvent::Opened { session: session(), ms: 1 });
    let index = IndexResponse { entries: vec![] };
    let (state, _) = step(state, DemoEvent::Indexed { index, ms: 0 });
    assert_eq!(
        outcome_after_close(state),
        "server returned an empty capability index"
    );

    let (state, action) = step(DemoState::Opening, DemoEvent::Failed("down".to_owned()));
    assert!(matches!(action, DemoAction::Finish));
    assert!(matches!(state, DemoState::Done(Err(reason)) if reason == "down"));

    let (state, action) = step(polling(), DemoEvent::Failed("lost".to_owned()));
    assert!(matches!(action, DemoAction::Cancel(_)));
    let (state, _) = step(state, DemoEvent::Cancelled);
    assert_eq!(outcome_after_close(state), "lost");

    let (state, action) = step(polling(), DemoEvent::Printed);
    assert!(matches!(action, DemoAction::Ignore));
    assert!(matches!(state, DemoState::Polling(_)));
}

#[test]
fn demo_opens_a_spawning_session_without_sandbox() {
    let req = open_request("/tmp/x".to_owned());
    assert_eq!(req.workspace, "/tmp/x");
    assert_eq!(req.sandbox_tier, EnforcementTier::DevNone);
    assert_eq!(req.capabilities[0].as_str(), "proc.spawn");
    assert_eq!(req.capabilities.len(), 1);
}

#[test]
fn least_name_is_the_minimum_of_the_standard_order() {
    for names in [
        vec!["b", "a", "c"],
        vec!["z", "z"],
        vec!["ab", "a", "abc"],
        vec!["\u{e9}", "z", "\u{10000}", "\u{ffff}"],
        vec![""],
    ] {
        let expected = names.iter().min().map(|n| n.to_string());
        assert_eq!(least_name(&entries(&names)), expected, "{names:?}");
    }
    assert_eq!(least_name(&Vec::new()), None);
}

#[test]
fn pauses_fit_the_rest_of_the_wait() {
    assert_eq!(next_pause(0, 100, 30), Some(30));
    assert_eq!(next_pause(90, 100, 30), Some(10));
    assert_eq!(next_pause(100, 100, 30), None);
    assert_eq!(next_pause(0, 0, 30), None);
    assert_eq!(next_pause(0, 100, 0), Some(0));
}

#[test]
fn replayed_log_is_joined_and_judged() {
    assert_eq!(
        join_frames(&vec![log_frame(0, b"ab"), log_frame(1, b""), log_frame(2, b"c")]),
        b"abc"
    );
    assert_eq!(
        judge_replay("x axp-runtime-smoke \n\u{3000}").unwrap(),
        "x axp-runtime-smoke"
    );
    assert!(judge_replay("axp-runtime-smok").is_err());
}

/// Whatever fails, a run that opened a session asks once to close it, and a run
/// that opened none asks for nothing of the kind.
#[test]
fn demo_closes_its_session_exactly_once() {
    let opened = || DemoEvent::Opened { session: session(), ms: 1 };
    let failed = || DemoEvent::Failed("lost".to_owned());
    let indexed = || DemoEvent::Indexed {
        index: IndexResponse { entries: entries(&["git_log"]) },
        ms: 0,
    };
    let runs: Vec<(Vec<DemoEvent>, usize)> = vec![
        (vec![failed()], 0),
        (vec![opened(), failed(), DemoEvent::Closed], 1),
        (vec![opened(), failed(), opened(), failed()], 1),
        (vec![opened(), indexed(), DemoEvent::Slept, failed(), DemoEvent::Closed, opened()], 1),
    ];
    for (events, expected) in runs {
        let mut state = DemoState::Opening;
        let mut closes: usize = 0;
        for event in events {
            let (next, action) = step(state, event);
            if let DemoAction::Close(req) = action {
                assert_eq!(req.session_id, session().session_id);
                assert_eq!(req.cap_token, session().cap_token);
                closes += 1;
            }
            state = next;
        }
        assert!(matches!(state, DemoState::Done(_)));
        assert_eq!(closes, expected);
    }
}
