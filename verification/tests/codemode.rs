//! Running WebAssembly components.

use std::sync::Arc;

use axp::codemode::error::Error;
use axp::codemode::runner::{
    settle_string_attempt, settle_unit_attempt, Attempt, CapabilityInvoke, CapabilityInvokeResult,
    CodeModeRunner, HostImports, ResultShape, RunnerConfig, DEFAULT_ENTRYPOINT,
};

struct Echo;

impl CapabilityInvoke for Echo {
    fn invoke(&self, name: &str, params_json: &str) -> CapabilityInvokeResult {
        Ok(format!("{name}:{params_json}"))
    }
}

struct Refuse;

impl CapabilityInvoke for Refuse {
    fn invoke(&self, _name: &str, _params_json: &str) -> CapabilityInvokeResult {
        Err("handler failed".to_string())
    }
}

const NOOP_COMPONENT: &str = r#"
    (component
      (core module $m
        (func (export "run")))
      (core instance $i (instantiate $m))
      (func (export "run") (canon lift (core func $i "run"))))
"#;

const LOOP_COMPONENT: &str = r#"
    (component
      (core module $m
        (func $run (export "run")
          (loop $again
            br $again)))
      (core instance $i (instantiate $m))
      (func (export "run") (canon lift (core func $i "run"))))
"#;

const HOST_RESULT_COMPONENT: &str = r#"
    (component
      (import "host-result" (func $host-result (result string)))
      (core module $memory
        (memory (export "memory") 1)
        (func (export "cabi_realloc")
          (param i32 i32 i32 i32)
          (result i32)
          i32.const 16))
      (core instance $memory-instance (instantiate $memory))
      (alias core export $memory-instance "memory" (core memory $memory-export))
      (alias core export $memory-instance "cabi_realloc" (core func $realloc))
      (core func $host-result-lowered
        (canon lower
          (func $host-result)
          (memory $memory-export)
          (realloc $realloc)
          string-encoding=utf8))
      (core instance $imports
        (export "host-result" (func $host-result-lowered)))
      (core instance $env
        (export "memory" (memory $memory-export)))
      (core module $m
        (import "" "host-result" (func $host-result-core (param i32)))
        (import "env" "memory" (memory 1))
        (func (export "run") (result i32)
          i32.const 0
          call $host-result-core
          i32.const 0))
      (core instance $i
        (instantiate $m
          (with "" (instance $imports))
          (with "env" (instance $env))))
      (alias core export $i "run" (core func $run))
      (func (export "run")
        (result string)
        (canon lift
          (core func $run)
          (memory $memory-export)
          (realloc $realloc)
          string-encoding=utf8)))
"#;

const CAPABILITY_INVOKE_COMPONENT: &str = r#"
    (component
      (import "axp:capability/invoke"
        (func $invoke (param "name" string) (param "params-json" string) (result string)))
      (core module $memory
        (memory (export "memory") 1)
        (global $next (mut i32) (i32.const 256))
        (data (i32.const 32) "say_hi")
        (data (i32.const 64) "{}")
        (func (export "cabi_realloc")
          (param i32 i32 i32 i32)
          (result i32)
          (local $ptr i32)
          global.get $next
          local.set $ptr
          global.get $next
          local.get 3
          i32.add
          global.set $next
          local.get $ptr))
      (core instance $memory-instance (instantiate $memory))
      (alias core export $memory-instance "memory" (core memory $memory-export))
      (alias core export $memory-instance "cabi_realloc" (core func $realloc))
      (core func $invoke-lowered
        (canon lower
          (func $invoke)
          (memory $memory-export)
          (realloc $realloc)
          string-encoding=utf8))
      (core instance $imports
        (export "axp:capability/invoke" (func $invoke-lowered)))
      (core instance $env
        (export "memory" (memory $memory-export)))
      (core module $m
        (import "" "axp:capability/invoke"
          (func $invoke-core (param i32 i32 i32 i32 i32)))
        (import "env" "memory" (memory 1))
        (func (export "run") (result i32)
          i32.const 32
          i32.const 6
          i32.const 64
          i32.const 2
          i32.const 0
          call $invoke-core
          i32.const 0))
      (core instance $i
        (instantiate $m
          (with "" (instance $imports))
          (with "env" (instance $env))))
      (alias core export $i "run" (core func $run))
      (func (export "run")
        (result string)
        (canon lift
          (core func $run)
          (memory $memory-export)
          (realloc $realloc)
          string-encoding=utf8)))
"#;

#[test]
fn runs_no_arg_component_entrypoint() {
    let runner = CodeModeRunner::new().ok().expect("runner config");

    let output = runner
        .run_component(NOOP_COMPONENT.as_bytes())
        .expect("component should run");

    assert_eq!(output.entrypoint, DEFAULT_ENTRYPOINT);
    assert_eq!(output.result, None);
}

#[test]
fn missing_host_result_import_fails_without_config() {
    let runner = CodeModeRunner::new().ok().expect("runner config");

    let err = runner
        .run_component(HOST_RESULT_COMPONENT.as_bytes())
        .expect_err("missing import should fail");

    assert!(matches!(err, Error::Instantiate(_)));
}

#[test]
fn missing_capability_invoke_import_fails_without_config() {
    let runner = CodeModeRunner::new().ok().expect("runner config");

    let err = runner
        .run_component(CAPABILITY_INVOKE_COMPONENT.as_bytes())
        .expect_err("missing import should fail");

    assert!(matches!(err, Error::Instantiate(_)));
}

#[test]
fn missing_entrypoint_errors_before_run() {
    let runner = CodeModeRunner::with_config(RunnerConfig {
        entrypoint: "missing".to_string(),
        ..RunnerConfig::default()
    })
    .ok()
    .expect("runner config");

    let err = runner
        .run_component(NOOP_COMPONENT.as_bytes())
        .expect_err("missing export should fail");

    assert!(matches!(err, Error::Entrypoint { .. }));
}

#[test]
fn fuel_exhaustion_stops_component() {
    let runner = CodeModeRunner::with_config(RunnerConfig {
        fuel: 1_000,
        ..RunnerConfig::default()
    })
    .ok()
    .expect("runner config");

    let err = runner
        .run_component(LOOP_COMPONENT.as_bytes())
        .expect_err("loop should exhaust fuel");

    assert!(matches!(err, Error::Run(_)));
}

/// An execution whose handle was interrupted before it began traps at once,
/// whatever its fuel.
#[test]
fn interrupted_handle_stops_looping_component() {
    let runner = CodeModeRunner::with_config(RunnerConfig {
        fuel: u64::MAX,
        ..RunnerConfig::default()
    })
    .ok()
    .expect("runner config");
    let interrupt = runner.interrupt_handle();
    interrupt.interrupt();
    let result = runner.run_component_with_interrupt(LOOP_COMPONENT.as_bytes(), &interrupt);
    assert!(matches!(result, Err(Error::Run(_))));
}

/// Whether a run is interrupted decides whether a looping component traps at its
/// epoch deadline or runs out of fuel.
#[test]
fn interrupted_run_traps_before_its_fuel_is_spent() {
    let runner = CodeModeRunner::with_config(RunnerConfig {
        fuel: 10_000,
        ..RunnerConfig::default()
    })
    .expect("runner builds");

    let stopped = runner.run_component_interrupted(LOOP_COMPONENT.as_bytes(), true);
    let starved = runner.run_component_interrupted(LOOP_COMPONENT.as_bytes(), false);
    assert!(matches!(stopped, Err(Error::Run(_))));
    assert!(matches!(starved, Err(Error::Run(_))));
    assert!(runner.run_component_interrupted(NOOP_COMPONENT.as_bytes(), true).is_err());
    assert!(runner.run_component_interrupted(NOOP_COMPONENT.as_bytes(), false).is_ok());
}

/// A handle starts out not interrupted.
#[test]
fn fresh_handle_lets_a_component_run() {
    let runner = CodeModeRunner::new().expect("runner builds");
    let interrupt = runner.interrupt_handle();
    assert!(runner.run_component_with_interrupt(NOOP_COMPONENT.as_bytes(), &interrupt).is_ok());
    interrupt.interrupt();
    assert!(runner.run_component_with_interrupt(NOOP_COMPONENT.as_bytes(), &interrupt).is_err());
}

#[test]
fn foreign_interrupt_handle_is_rejected() {
    let runner = CodeModeRunner::new().ok().expect("runner config");
    let foreign_runner = CodeModeRunner::new().ok().expect("runner config");
    let foreign_interrupt = foreign_runner.interrupt_handle();

    assert!(matches!(
        runner
            .run_component_with_interrupt(NOOP_COMPONENT.as_bytes(), &foreign_interrupt),
        Err(Error::Run(source)) if source == "interrupt handle belongs to a different code-mode runner"
    ));
}

/// Components that import a host function without calling it need no memory.
const IMPORTS_HOST_RESULT: &str = r#"
    (component
      (import "host-result" (func $host-result (result string)))
      (core module $m
        (func (export "run")))
      (core instance $i (instantiate $m))
      (func (export "run") (canon lift (core func $i "run"))))
"#;

const IMPORTS_INVOKE: &str = r#"
    (component
      (import "axp:capability/invoke"
        (func $invoke (param "name" string) (param "params-json" string) (result string)))
      (core module $m
        (func (export "run")))
      (core instance $i (instantiate $m))
      (func (export "run") (canon lift (core func $i "run"))))
"#;

fn runner_with(host_result: Option<&str>, handler: bool) -> CodeModeRunner {
    let mut config = RunnerConfig::default();
    config.host_imports.host_result = host_result.map(str::to_owned);
    if handler {
        config.capability_invoke = Some(Arc::new(Refuse));
    }
    CodeModeRunner::with_config(config).ok().expect("runner config")
}

#[test]
fn component_finds_exactly_the_configured_imports() {
    let cases = [
        (None, false, false, false),
        (Some("ready"), false, true, false),
        (None, true, false, true),
        (Some("ready"), true, true, true),
    ];
    for (text, handler, finds_text, finds_invoke) in cases {
        let runner = runner_with(text, handler);
        let missing = |component: &str| {
            matches!(
                runner.run_component(component.as_bytes()),
                Err(Error::Instantiate(_))
            )
        };
        assert_eq!(missing(IMPORTS_HOST_RESULT), !finds_text);
        assert_eq!(missing(IMPORTS_INVOKE), !finds_invoke);
    }
}

#[test]
fn unused_handler_is_not_called() {
    let runner = runner_with(None, true);
    let output = runner.run_component(IMPORTS_INVOKE.as_bytes()).expect("runs");
    assert_eq!(output.entrypoint, "run");
    assert_eq!(output.result, None);
}

#[test]
fn bytes_that_are_no_component_do_not_compile() {
    let runner = CodeModeRunner::new().ok().expect("runner config");
    let err = runner.run_component(b"not a component").expect_err("must not compile");
    assert!(matches!(err, Error::Compile(_)), "{err:?}");
    assert!(err.text().starts_with("failed to compile WASM component: "));
}

#[test]
fn entrypoint_without_result_is_accepted_beside_a_handler() {
    let runner = CodeModeRunner::with_config(RunnerConfig {
        capability_invoke: Some(Arc::new(Echo)),
        ..RunnerConfig::default()
    })
    .ok()
    .expect("runner config");
    let output = runner.run_component(NOOP_COMPONENT.as_bytes()).expect("runs");
    assert_eq!(output.result, None);
}

#[test]
fn entrypoint_without_result_is_refused_where_a_string_is_required() {
    let runner = CodeModeRunner::with_config(RunnerConfig {
        host_imports: HostImports {
            host_result: Some("ready".to_string()),
        },
        ..RunnerConfig::default()
    })
    .ok()
    .expect("runner config");
    let err = runner
        .run_component(NOOP_COMPONENT.as_bytes())
        .expect_err("a string is required");
    match err {
        Error::Entrypoint { name, .. } => assert_eq!(name, "run"),
        other => panic!("expected Entrypoint, got {other:?}"),
    }
}

#[test]
fn shape_of_the_result_follows_the_configuration() {
    assert_eq!(RunnerConfig::default().result_shape(), ResultShape::Nothing);
    let with_handler = RunnerConfig {
        capability_invoke: Some(Arc::new(Echo)),
        ..RunnerConfig::default()
    };
    assert_eq!(with_handler.result_shape(), ResultShape::StringAccepted);
    let with_both = RunnerConfig {
        host_imports: HostImports {
            host_result: Some(String::new()),
        },
        ..with_handler
    };
    assert_eq!(with_both.result_shape(), ResultShape::StringRequired);
}

#[test]
fn attempts_are_settled_in_their_order() {
    let refused = settle_string_attempt(
        "run",
        ResultShape::StringAccepted,
        Attempt::NotCallable("first".to_owned()),
    );
    let source = refused.err().expect("try the other signature");
    assert_eq!(source, "first");
    let done = settle_unit_attempt(
        "run",
        Some(source),
        Attempt::NotCallable("second".to_owned()),
    );
    assert_eq!(
        done,
        Err(Error::Entrypoint {
            name: "run".to_owned(),
            source: "first".to_owned()
        })
    );
    let done = settle_unit_attempt("run", None, Attempt::NotCallable("second".to_owned()));
    assert_eq!(
        done,
        Err(Error::Entrypoint {
            name: "run".to_owned(),
            source: "second".to_owned()
        })
    );
    let done = settle_unit_attempt("run", None, Attempt::Trapped("oops".to_owned()));
    assert_eq!(done, Err(Error::Run("oops".to_owned())));
}

#[test]
fn failures_are_shown_with_what_the_engine_said() {
    assert_eq!(
        Error::Engine("e".into()).text(),
        "failed to configure WASM engine: e"
    );
    assert_eq!(
        Error::Fuel("f".into()).text(),
        "failed to initialize WASM fuel: f"
    );
    assert_eq!(
        Error::Instantiate("i".into()).text(),
        "failed to instantiate WASM component: i"
    );
    assert_eq!(
        Error::Run("r".into()).text(),
        "WASM component execution failed: r"
    );
    let entry = Error::Entrypoint {
        name: "go".into(),
        source: "x".into(),
    };
    assert_eq!(
        entry.text(),
        "WASM component entrypoint `go` is not callable with the configured signature"
    );
}
