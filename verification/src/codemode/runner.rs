//! Runs WebAssembly components with configured host imports.

use std::sync::atomic::{AtomicBool, Ordering};
use std::sync::Arc;

use vstd::prelude::*;
use vstd::string::*;

use crate::codemode::error::{Error, RunErrorView};
use crate::codemode::machine::{
    advance_epoch, call_for_nothing, call_for_string, check_epochs, checks_epochs, compile,
    compiled_to, component_engine, engine_config, engine_made, flag_read, flag_start, goes_to,
    handler_linked, instantiate, instantiated, link_handler, link_text, linked_handlers,
    linked_texts, linker_engine, meter_fuel, meters_fuel, new_config, new_engine, new_flag,
    new_linker, new_store, owns_instance, read_flag, said, same_engine, set_deadline, set_fuel,
    store_deadline, store_engine, store_fuel, string_called, string_entrypoint, string_export,
    take_components, takes_components, text_linked, trap_at_deadline, unit_called, unit_entrypoint,
    unit_export,
};

verus! {

/// Default exported function that a runner calls.
pub const DEFAULT_ENTRYPOINT: &'static str = "run";

/// Default fuel budget of an execution.
pub const DEFAULT_FUEL: u64 = 10_000_000;

/// Default epoch ticks before an interrupt traps an execution.
pub const DEFAULT_EPOCH_DEADLINE: u64 = 1;

/// Root import name of the host-provided string.
pub const DEFAULT_HOST_RESULT_IMPORT: &'static str = "host-result";

/// Root import name for invoking a host-provided capability.
pub const DEFAULT_CAPABILITY_INVOKE_IMPORT: &'static str = "axp:capability/invoke";

/// What a host capability handler gives.
pub type CapabilityInvokeResult = Result<String, String>;

/// A host that serves capability invocations of a component.
pub trait CapabilityInvoke: Send + Sync {
    /// Serve one invocation: the capability's name and its parameters as JSON.
    fn invoke(&self, name: &str, params_json: &str) -> CapabilityInvokeResult;
}

/// A shared host for capability invocations.
pub type CapabilityInvokeHandler = Arc<dyn CapabilityInvoke>;

/// What one execution of a component gave.
#[derive(Debug, PartialEq, Eq)]
pub struct RunOutput {
    /// The exported function that was called.
    pub entrypoint: String,
    /// The string that it returned, where it returns one.
    pub result: Option<String>,
}

impl Clone for RunOutput {
    fn clone(&self) -> (r: Self)
        ensures
            r == *self,
    {
        RunOutput { entrypoint: self.entrypoint.clone(), result: self.result.clone() }
    }
}

/// What one execution gave, with its texts as sequences.
#[verifier::ext_equal]
pub struct RunOutputView {
    pub entrypoint: Seq<char>,
    pub result: Option<Seq<char>>,
}

impl View for RunOutput {
    type V = RunOutputView;

    open spec fn view(&self) -> RunOutputView {
        RunOutputView {
            entrypoint: self.entrypoint@,
            result: match self.result {
                Some(text) => Some(text@),
                None => None,
            },
        }
    }
}

/// Host imports available to a component.
#[derive(Debug, PartialEq, Eq)]
pub struct HostImports {
    /// The string that the `host-result` root import gives.
    pub host_result: Option<String>,
}

impl Default for HostImports {
    fn default() -> (r: Self)
        ensures
            r.host_result is None,
    {
        HostImports { host_result: None }
    }
}

impl Clone for HostImports {
    fn clone(&self) -> (r: Self)
        ensures
            r == *self,
    {
        HostImports {
            host_result: match &self.host_result {
                Some(text) => Some(text.clone()),
                None => None,
            },
        }
    }
}

/// Configuration of a runner.
#[derive(Clone)]
pub struct RunnerConfig {
    /// Exported no-argument function to call after instantiation.
    pub entrypoint: String,
    /// Fuel budget of each run.
    pub fuel: u64,
    /// Host imports linked into each instance.
    pub host_imports: HostImports,
    /// Handler linked as the capability invocation import, where there is one.
    pub capability_invoke: Option<CapabilityInvokeHandler>,
}

impl Default for RunnerConfig {
    fn default() -> (r: Self)
        ensures
            r.entrypoint@ == DEFAULT_ENTRYPOINT@,
            r.fuel == DEFAULT_FUEL,
            r.host_imports.host_result is None,
            r.capability_invoke is None,
    {
        RunnerConfig {
            entrypoint: DEFAULT_ENTRYPOINT.to_owned(),
            fuel: DEFAULT_FUEL,
            host_imports: HostImports::default(),
            capability_invoke: None,
        }
    }
}

/// What the entrypoint has to give back.
#[derive(Debug, Clone, Copy, PartialEq, Eq, Structural)]
pub enum ResultShape {
    /// A string.
    StringRequired,
    /// A string or nothing.
    StringAccepted,
    /// Nothing.
    Nothing,
}

/// What the entrypoint has to give back under a configuration: a string where
/// the host provides one, a string or nothing where it serves capabilities.
pub open spec fn result_shape(config: RunnerConfig) -> ResultShape {
    if config.host_imports.host_result is Some {
        ResultShape::StringRequired
    } else if config.capability_invoke is Some {
        ResultShape::StringAccepted
    } else {
        ResultShape::Nothing
    }
}

/// Whether a linker holds the imports of a configuration and no others: the
/// fixed text under its name and the handler under its own, where they are
/// configured.
pub open spec fn holds_configured_imports(
    linker: wasmtime::component::Linker<()>,
    config: RunnerConfig,
) -> bool {
    &&& linked_texts(linker) == match config.host_imports.host_result {
        Some(text) => Map::<Seq<char>, Seq<char>>::empty().insert(
            DEFAULT_HOST_RESULT_IMPORT@,
            text@,
        ),
        None => Map::<Seq<char>, Seq<char>>::empty(),
    }
    &&& match &config.capability_invoke {
        Some(handler) => {
            &&& linked_handlers(linker) == Set::<Seq<char>>::empty().insert(
                DEFAULT_CAPABILITY_INVOKE_IMPORT@,
            )
            &&& goes_to(linker, DEFAULT_CAPABILITY_INVOKE_IMPORT@, handler)
        },
        None => linked_handlers(linker) == Set::<Seq<char>>::empty(),
    }
}

/// Whether linking the imports of a configuration gave this: a linker that holds
/// them, or what the first import that was refused was told.
pub open spec fn linked_for(
    engine: wasmtime::Engine,
    config: RunnerConfig,
    r: Result<wasmtime::component::Linker<()>, Seq<char>>,
) -> bool {
    match r {
        Ok(linker) => linker_engine(linker) == engine && holds_configured_imports(linker, config),
        Err(message) => {
            ||| config.host_imports.host_result matches Some(text) && exists|
                linker: wasmtime::component::Linker<()>,
                told: Result<(), Seq<char>>,
            | #[trigger]
                text_linked(linker, DEFAULT_HOST_RESULT_IMPORT@, text@, told) && told == Err::<
                    (),
                    Seq<char>,
                >(message)
            ||| &config.capability_invoke matches Some(handler) && exists|
                linker: wasmtime::component::Linker<()>,
                told: Result<(), Seq<char>>,
            | #[trigger]
                handler_linked(linker, DEFAULT_CAPABILITY_INVOKE_IMPORT@, handler, told) && told
                    == Err::<(), Seq<char>>(message)
        },
    }
}

impl RunnerConfig {
    /// What the entrypoint has to give back.
    pub fn result_shape(&self) -> (r: ResultShape)
        ensures
            r == result_shape(*self),
    {
        if self.host_imports.host_result.is_some() {
            ResultShape::StringRequired
        } else if self.capability_invoke.is_some() {
            ResultShape::StringAccepted
        } else {
            ResultShape::Nothing
        }
    }
}

/// What came of looking an entrypoint up with a signature and calling it.
#[derive(Debug, PartialEq, Eq)]
pub enum Attempt {
    /// It is not callable with that signature.
    NotCallable(String),
    /// It trapped.
    Trapped(String),
    /// It returned; a string where the signature has one.
    Returned(Option<String>),
}

/// What a run gives when the entrypoint was tried as one that gives a string.
/// `None` stands for: try it as one that gives nothing.
pub open spec fn after_string_attempt(
    entrypoint: Seq<char>,
    shape: ResultShape,
    attempt: Attempt,
) -> Option<Result<RunOutputView, RunErrorView>> {
    match attempt {
        Attempt::NotCallable(source) => if shape == ResultShape::StringRequired {
            Some(Err(RunErrorView::Entrypoint { name: entrypoint, source: source@ }))
        } else {
            None
        },
        Attempt::Trapped(source) => Some(Err(RunErrorView::Run(source@))),
        Attempt::Returned(result) => Some(
            Ok(
                RunOutputView {
                    entrypoint,
                    result: match result {
                        Some(text) => Some(text@),
                        None => None,
                    },
                },
            ),
        ),
    }
}

/// What a run gives when the entrypoint was tried as one that gives nothing.
/// Where it was tried as one that gives a string before, what was said then is
/// what is reported.
pub open spec fn after_unit_attempt(
    entrypoint: Seq<char>,
    refused: Option<Seq<char>>,
    attempt: Attempt,
) -> Result<RunOutputView, RunErrorView> {
    match attempt {
        Attempt::NotCallable(source) => Err(
            RunErrorView::Entrypoint {
                name: entrypoint,
                source: match refused {
                    Some(earlier) => earlier,
                    None => source@,
                },
            },
        ),
        Attempt::Trapped(source) => Err(RunErrorView::Run(source@)),
        Attempt::Returned(_) => Ok(RunOutputView { entrypoint, result: None }),
    }
}

/// The outcome of a run by what it says.
pub open spec fn run_outcome(r: Result<RunOutput, Error>) -> Result<RunOutputView, RunErrorView> {
    match r {
        Ok(output) => Ok(output@),
        Err(e) => Err(e@),
    }
}

/// What a run gives when the entrypoint was tried as one that gives a string;
/// `None` where it is to be tried as one that gives nothing.
pub fn settle_string_attempt(entrypoint: &str, shape: ResultShape, attempt: Attempt) -> (r: Result<
    Result<RunOutput, Error>,
    String,
>)
    ensures
        match r {
            Ok(done) => after_string_attempt(entrypoint@, shape, attempt) == Some(
                run_outcome(done),
            ),
            Err(refused) => {
                &&& after_string_attempt(entrypoint@, shape, attempt) is None
                &&& attempt matches Attempt::NotCallable(source) && refused@ == source@
            },
        },
{
    match attempt {
        Attempt::NotCallable(source) => {
            if shape == ResultShape::StringRequired {
                Ok(Err(Error::Entrypoint { name: entrypoint.to_owned(), source }))
            } else {
                Err(source)
            }
        },
        Attempt::Trapped(source) => Ok(Err(Error::Run(source))),
        Attempt::Returned(result) => Ok(
            Ok(RunOutput { entrypoint: entrypoint.to_owned(), result }),
        ),
    }
}

/// What a run gives when the entrypoint was tried as one that gives nothing.
pub fn settle_unit_attempt(entrypoint: &str, refused: Option<String>, attempt: Attempt) -> (r:
    Result<RunOutput, Error>)
    ensures
        run_outcome(r) == after_unit_attempt(
            entrypoint@,
            match refused {
                Some(earlier) => Some(earlier@),
                None => None,
            },
            attempt,
        ),
{
    match attempt {
        Attempt::NotCallable(source) => Err(
            Error::Entrypoint {
                name: entrypoint.to_owned(),
                source: match refused {
                    Some(earlier) => earlier,
                    None => source,
                },
            },
        ),
        Attempt::Trapped(source) => Err(Error::Run(source)),
        Attempt::Returned(_) => Ok(RunOutput { entrypoint: entrypoint.to_owned(), result: None }),
    }
}

/// A handle that interrupts the executions of one runner from another thread.
#[derive(Debug, Clone)]
pub struct CodeModeInterruptHandle {
    engine: wasmtime::Engine,
    interrupted: Arc<AtomicBool>,
}

impl CodeModeInterruptHandle {
    /// The engine whose executions the handle interrupts.
    pub closed spec fn engine(&self) -> wasmtime::Engine {
        self.engine
    }

    /// The flag that tells whether the handle was interrupted.
    pub closed spec fn flag(&self) -> AtomicBool {
        *self.interrupted
    }

    /// Request interruption: what runs on the engine with an armed deadline
    /// traps at its next epoch check.
    pub fn interrupt(&self) {
        self.interrupted.store(true, Ordering::Release);
        advance_epoch(&self.engine);
    }
}

/// Runs WebAssembly components with configured host imports.
#[derive(Clone)]
pub struct CodeModeRunner {
    engine: wasmtime::Engine,
    config: RunnerConfig,
}

/// What an engine says to a handle that is not its own.
pub open spec fn foreign_handle() -> RunErrorView {
    RunErrorView::Run("interrupt handle belongs to a different code-mode runner"@)
}

/// Whether a call of an instance's entrypoint for a string went so; `looked` is
/// the store once the entrypoint was looked up.
pub open spec fn string_attempted(
    instance: wasmtime::component::Instance,
    name: Seq<char>,
    store: wasmtime::Store<()>,
    looked: wasmtime::Store<()>,
    attempt: Attempt,
) -> bool {
    exists|found: Result<wasmtime::component::TypedFunc<(), (String,)>, Seq<char>>|
        {
            &&& #[trigger] string_export(instance, name, store, looked, found)
            &&& match (found, attempt) {
                (Err(message), Attempt::NotCallable(source)) => source@ == message,
                (Ok(func), Attempt::Trapped(source)) => string_called(func, looked, Err(source@)),
                (Ok(func), Attempt::Returned(Some(text))) => string_called(
                    func,
                    looked,
                    Ok(text@),
                ),
                _ => false,
            }
        }
}

/// Whether a call of an instance's entrypoint for nothing went so.
pub open spec fn unit_attempted(
    instance: wasmtime::component::Instance,
    name: Seq<char>,
    store: wasmtime::Store<()>,
    attempt: Attempt,
) -> bool {
    exists|
        looked: wasmtime::Store<()>,
        found: Result<wasmtime::component::TypedFunc<(), ()>, Seq<char>>,
    |
        {
            &&& #[trigger] unit_export(instance, name, store, looked, found)
            &&& match (found, attempt) {
                (Err(message), Attempt::NotCallable(source)) => source@ == message,
                (Ok(func), Attempt::Trapped(source)) => unit_called(func, looked, Err(source@)),
                (Ok(func), Attempt::Returned(None)) => unit_called(func, looked, Ok(())),
                _ => false,
            }
        }
}

/// Whether calling an instance gave this outcome: its entrypoint was called with
/// the signatures that the configuration admits of, in their order.
pub open spec fn called(
    config: RunnerConfig,
    instance: wasmtime::component::Instance,
    store: wasmtime::Store<()>,
    r: Result<RunOutputView, RunErrorView>,
) -> bool {
    let name = config.entrypoint@;
    if result_shape(config) == ResultShape::Nothing {
        exists|unit: Attempt| #[trigger]
            unit_attempted(instance, name, store, unit) && r == after_unit_attempt(
                name,
                None,
                unit,
            )
    } else {
        exists|looked: wasmtime::Store<()>, attempt: Attempt|
            {
                &&& #[trigger] string_attempted(instance, name, store, looked, attempt)
                &&& match after_string_attempt(name, result_shape(config), attempt) {
                    Some(done) => r == done,
                    None => exists|unit: Attempt| #[trigger]
                        unit_attempted(instance, name, looked, unit) && r == after_unit_attempt(
                            name,
                            Some(attempt->NotCallable_0@),
                            unit,
                        ),
                }
            }
    }
}

/// Whether a store is ready for a run: it is of the engine and holds the fuel,
/// and its deadline is the usual one, or has passed where the run is interrupted
/// before it begins.
pub open spec fn readied(
    store: wasmtime::Store<()>,
    engine: wasmtime::Engine,
    fuel: u64,
    interrupted: bool,
) -> bool {
    &&& store_engine(store) == engine
    &&& store_fuel(store) == fuel
    &&& store_deadline(store) == (if interrupted {
        0
    } else {
        DEFAULT_EPOCH_DEADLINE
    })
}

/// Whether running a linked component in a store gave this outcome: it was
/// instantiated there and its entrypoint called.
pub open spec fn ran_in(
    config: RunnerConfig,
    component: wasmtime::component::Component,
    linker: wasmtime::component::Linker<()>,
    store: wasmtime::Store<()>,
    r: Result<RunOutputView, RunErrorView>,
) -> bool {
    exists|after: wasmtime::Store<()>, made: Result<wasmtime::component::Instance, Seq<char>>|
        {
            &&& #[trigger] instantiated(linker, component, store, after, made)
            &&& match made {
                Err(message) => r == Err::<RunOutputView, RunErrorView>(
                    RunErrorView::Instantiate(message),
                ),
                Ok(instance) => called(config, instance, after, r),
            }
        }
}

/// Whether running a linked component gave this outcome; `interrupted` tells
/// whether the run was interrupted before it began.
pub open spec fn ran_linked(
    engine: wasmtime::Engine,
    config: RunnerConfig,
    component: wasmtime::component::Component,
    linker: wasmtime::component::Linker<()>,
    interrupted: bool,
    r: Result<RunOutputView, RunErrorView>,
) -> bool {
    if !meters_fuel(engine_config(engine)) {
        r matches Err(e) && e is Fuel
    } else {
        exists|store: wasmtime::Store<()>|
            {
                &&& #[trigger] ran_in(config, component, linker, store, r)
                &&& readied(store, engine, config.fuel, interrupted)
            }
    }
}

/// Whether running a linked component under a flag gave this outcome: the flag
/// was read with the store's deadline already armed, and where it was not set,
/// the component ran in that same store.
pub open spec fn ran_linked_watched(
    engine: wasmtime::Engine,
    config: RunnerConfig,
    component: wasmtime::component::Component,
    linker: wasmtime::component::Linker<()>,
    flag: AtomicBool,
    r: Result<RunOutputView, RunErrorView>,
) -> bool {
    if !meters_fuel(engine_config(engine)) {
        r matches Err(e) && e is Fuel
    } else {
        exists|armed: wasmtime::Store<()>, interrupted: bool, store: wasmtime::Store<()>|
            {
                &&& #[trigger] flag_read(flag, armed, interrupted)
                &&& readied(armed, engine, config.fuel, false)
                &&& #[trigger] ran_in(config, component, linker, store, r)
                &&& readied(store, engine, config.fuel, interrupted)
                &&& !interrupted ==> store == armed
            }
    }
}

/// Whether getting the component that the bytes write ready to run gave this:
/// the bytes were compiled and the configured imports linked, the second as far
/// as the first went well.
pub open spec fn prepared_as(
    engine: wasmtime::Engine,
    config: RunnerConfig,
    bytes: Seq<u8>,
    prepared: Result<
        (wasmtime::component::Component, wasmtime::component::Linker<()>),
        RunErrorView,
    >,
) -> bool {
    exists|compiled: Result<wasmtime::component::Component, Seq<char>>|
        {
            &&& #[trigger] compiled_to(engine, bytes, compiled)
            &&& match compiled {
                Err(message) => prepared matches Err(e) && e == RunErrorView::Compile(message),
                Ok(component) => exists|
                    linked: Result<wasmtime::component::Linker<()>, Seq<char>>,
                |
                    {
                        &&& #[trigger] linked_for(engine, config, linked)
                        &&& match linked {
                            Err(message) => prepared matches Err(e) && e
                                == RunErrorView::Instantiate(message),
                            Ok(linker) => prepared matches Ok(pair) && pair == (component, linker),
                        }
                    },
            }
        }
}

/// Whether running the component that the bytes write gave this outcome: it was
/// made ready, instantiated with the configured fuel and its entrypoint called,
/// each as far as the one before went well. `interrupted` tells whether the run
/// was interrupted before the component was instantiated.
pub open spec fn ran(
    engine: wasmtime::Engine,
    config: RunnerConfig,
    bytes: Seq<u8>,
    interrupted: bool,
    r: Result<RunOutputView, RunErrorView>,
) -> bool {
    exists|
        prepared: Result<
            (wasmtime::component::Component, wasmtime::component::Linker<()>),
            RunErrorView,
        >,
    |
        {
            &&& #[trigger] prepared_as(engine, config, bytes, prepared)
            &&& match prepared {
                Err(e) => r == Err::<RunOutputView, RunErrorView>(e),
                Ok((component, linker)) => ran_linked(
                    engine,
                    config,
                    component,
                    linker,
                    interrupted,
                    r,
                ),
            }
        }
}

/// Whether running the component that the bytes write under a flag gave this
/// outcome.
pub open spec fn ran_watched(
    engine: wasmtime::Engine,
    config: RunnerConfig,
    bytes: Seq<u8>,
    flag: AtomicBool,
    r: Result<RunOutputView, RunErrorView>,
) -> bool {
    exists|
        prepared: Result<
            (wasmtime::component::Component, wasmtime::component::Linker<()>),
            RunErrorView,
        >,
    |
        {
            &&& #[trigger] prepared_as(engine, config, bytes, prepared)
            &&& match prepared {
                Err(e) => r == Err::<RunOutputView, RunErrorView>(e),
                Ok((component, linker)) => ran_linked_watched(
                    engine,
                    config,
                    component,
                    linker,
                    flag,
                    r,
                ),
            }
        }
}

/// A run under a flag goes as one that was interrupted from the start, or as one
/// that was not.
pub proof fn watched_run_is_interrupted_or_not(
    engine: wasmtime::Engine,
    config: RunnerConfig,
    bytes: Seq<u8>,
    flag: AtomicBool,
    r: Result<RunOutputView, RunErrorView>,
)
    requires
        ran_watched(engine, config, bytes, flag, r),
    ensures
        ran(engine, config, bytes, true, r) || ran(engine, config, bytes, false, r),
{
    let prepared = choose|
        prepared: Result<
            (wasmtime::component::Component, wasmtime::component::Linker<()>),
            RunErrorView,
        >,
    |
        {
            &&& #[trigger] prepared_as(engine, config, bytes, prepared)
            &&& match prepared {
                Err(e) => r == Err::<RunOutputView, RunErrorView>(e),
                Ok((component, linker)) => ran_linked_watched(
                    engine,
                    config,
                    component,
                    linker,
                    flag,
                    r,
                ),
            }
        };
    if let Ok((component, linker)) = prepared {
        assert(ran_linked(engine, config, component, linker, true, r) || ran_linked(
            engine,
            config,
            component,
            linker,
            false,
            r,
        ));
    }
}

/// Whether settings are those of a runner's engine.
pub open spec fn suits_components(config: wasmtime::Config) -> bool {
    &&& takes_components(config)
    &&& meters_fuel(config)
    &&& checks_epochs(config)
}

/// Whether building a runner failed so: what the engine said to fitting
/// settings.
pub open spec fn engine_refused(e: RunErrorView) -> bool {
    exists|settings: wasmtime::Config, made: Result<wasmtime::Engine, Seq<char>>|
        {
            &&& #[trigger] engine_made(settings, made)
            &&& suits_components(settings)
            &&& made matches Err(message) && e == RunErrorView::Engine(message)
        }
}

impl CodeModeRunner {
    /// The engine that the runner's components run on.
    pub closed spec fn engine(&self) -> wasmtime::Engine {
        self.engine
    }

    /// How the runner is configured.
    pub closed spec fn configuration(&self) -> RunnerConfig {
        self.config
    }

    /// Whether the engine takes components, meters fuel and checks epochs.
    pub open spec fn wf(&self) -> bool {
        suits_components(engine_config(self.engine()))
    }

    /// Build a runner with the default entrypoint and fuel budget.
    pub fn new() -> (r: Result<Self, Error>)
        ensures
            match r {
                Ok(runner) => {
                    &&& runner.wf()
                    &&& runner.configuration().entrypoint@ == DEFAULT_ENTRYPOINT@
                    &&& runner.configuration().fuel == DEFAULT_FUEL
                    &&& result_shape(runner.configuration()) == ResultShape::Nothing
                },
                Err(e) => engine_refused(e@),
            },
    {
        Self::with_config(RunnerConfig::default())
    }

    /// Build a runner with explicit configuration.
    pub fn with_config(config: RunnerConfig) -> (r: Result<Self, Error>)
        ensures
            match r {
                Ok(runner) => runner.wf() && runner.configuration() == config,
                Err(e) => engine_refused(e@),
            },
    {
        let mut settings = new_config();
        take_components(&mut settings, true);
        meter_fuel(&mut settings, true);
        check_epochs(&mut settings, true);
        match new_engine(&settings) {
            Ok(engine) => Ok(CodeModeRunner { engine, config }),
            Err(source) => {
                assert(engine_made(settings, Err(source@)));
                Err(Error::Engine(source))
            },
        }
    }

    /// A handle that interrupts executions of this runner from another thread.
    /// It starts out not interrupted.
    pub fn interrupt_handle(&self) -> (r: CodeModeInterruptHandle)
        ensures
            r.engine() == self.engine(),
            !flag_start(r.flag()),
    {
        CodeModeInterruptHandle {
            engine: self.engine.clone(),
            interrupted: Arc::new(new_flag(false)),
        }
    }

    /// A linker with the configured imports and no others.
    fn linker(&self) -> (r: Result<wasmtime::component::Linker<()>, Error>)
        ensures
            match r {
                Ok(linker) => linked_for(self.engine(), self.configuration(), Ok(linker)),
                Err(e) => e matches Error::Instantiate(source) && linked_for(
                    self.engine(),
                    self.configuration(),
                    Err(source@),
                ),
            },
    {
        let mut linker = new_linker(&self.engine);
        match &self.config.host_imports.host_result {
            Some(text) => {
                let ghost empty = linker;
                match link_text(&mut linker, DEFAULT_HOST_RESULT_IMPORT, text.clone()) {
                    Ok(_) => {},
                    Err(source) => {
                        assert(text_linked(
                            empty,
                            DEFAULT_HOST_RESULT_IMPORT@,
                            text@,
                            Err(source@),
                        ));
                        return Err(Error::Instantiate(source));
                    },
                }
            },
            None => {},
        }
        match &self.config.capability_invoke {
            Some(handler) => {
                let ghost before = linker;
                match link_handler(&mut linker, DEFAULT_CAPABILITY_INVOKE_IMPORT, handler) {
                    Ok(_) => {},
                    Err(source) => {
                        assert(handler_linked(
                            before,
                            DEFAULT_CAPABILITY_INVOKE_IMPORT@,
                            handler,
                            Err(source@),
                        ));
                        return Err(Error::Instantiate(source));
                    },
                }
            },
            None => {},
        }
        Ok(linker)
    }

    /// A store with the configured fuel, armed to trap at the usual deadline.
    fn store(&self) -> (r: Result<wasmtime::Store<()>, Error>)
        ensures
            match r {
                Ok(store) => {
                    &&& meters_fuel(engine_config(self.engine()))
                    &&& readied(store, self.engine(), self.configuration().fuel, false)
                },
                Err(e) => !meters_fuel(engine_config(self.engine())) && e is Fuel,
            },
    {
        let mut store = new_store(&self.engine);
        match set_fuel(&mut store, self.config.fuel) {
            Ok(_) => {},
            Err(source) => return Err(Error::Fuel(source)),
        }
        set_deadline(&mut store, DEFAULT_EPOCH_DEADLINE);
        trap_at_deadline(&mut store);
        Ok(store)
    }

    /// Try the entrypoint as one that gives a string.
    fn try_string(
        &self,
        instance: &wasmtime::component::Instance,
        store: &mut wasmtime::Store<()>,
    ) -> (r: Attempt)
        requires
            owns_instance(*old(store), *instance),
        ensures
            exists|looked: wasmtime::Store<()>|
                {
                    &&& #[trigger] string_attempted(
                        *instance,
                        self.configuration().entrypoint@,
                        *old(store),
                        looked,
                        r,
                    )
                    &&& r is NotCallable ==> *final(store) == looked && owns_instance(
                        looked,
                        *instance,
                    )
                },
    {
        let ghost before = *store;
        let ghost name = self.config.entrypoint@;
        let found = string_entrypoint(instance, store, self.config.entrypoint.as_str());
        let ghost looked = *store;
        assert(string_export(*instance, name, before, looked, said(found)));
        let attempt = match found {
            Err(source) => Attempt::NotCallable(source),
            Ok(func) => match call_for_string(&func, store) {
                Err(source) => Attempt::Trapped(source),
                Ok(text) => Attempt::Returned(Some(text)),
            },
        };
        assert(string_attempted(*instance, name, before, looked, attempt));
        attempt
    }

    /// Try the entrypoint as one that gives nothing.
    fn try_unit(
        &self,
        instance: &wasmtime::component::Instance,
        store: &mut wasmtime::Store<()>,
    ) -> (r: Attempt)
        requires
            owns_instance(*old(store), *instance),
        ensures
            unit_attempted(*instance, self.configuration().entrypoint@, *old(store), r),
    {
        let found = unit_entrypoint(instance, store, self.config.entrypoint.as_str());
        let ghost looked = *store;
        assert(unit_export(
            *instance,
            self.config.entrypoint@,
            *old(store),
            looked,
            said(found),
        ));
        match found {
            Err(source) => Attempt::NotCallable(source),
            Ok(func) => match call_for_nothing(&func, store) {
                Err(source) => Attempt::Trapped(source),
                Ok(_) => Attempt::Returned(None),
            },
        }
    }

    /// Compile the bytes and link the configured imports.
    fn prepare(&self, bytes: &[u8]) -> (r: Result<
        (wasmtime::component::Component, wasmtime::component::Linker<()>),
        Error,
    >)
        ensures
            match r {
                Ok((component, linker)) => {
                    &&& prepared_as(
                        self.engine(),
                        self.configuration(),
                        bytes@,
                        Ok((component, linker)),
                    )
                    &&& component_engine(component) == self.engine()
                    &&& linker_engine(linker) == self.engine()
                },
                Err(e) => prepared_as(self.engine(), self.configuration(), bytes@, Err(e@)),
            },
    {
        let compiled = compile(&self.engine, bytes);
        assert(compiled_to(self.engine, bytes@, said(compiled)));
        let component = match compiled {
            Ok(component) => component,
            Err(source) => return Err(Error::Compile(source)),
        };
        match self.linker() {
            Ok(linker) => {
                assert(linked_for(self.engine, self.config, Ok(linker)));
                Ok((component, linker))
            },
            Err(e) => {
                assert(linked_for(self.engine, self.config, Err(e->Instantiate_0@)));
                Err(e)
            },
        }
    }

    /// Instantiate a linked component in a store and call the configured
    /// entrypoint.
    fn run_in(
        &self,
        component: &wasmtime::component::Component,
        linker: &wasmtime::component::Linker<()>,
        store: wasmtime::Store<()>,
    ) -> (r: Result<RunOutput, Error>)
        requires
            component_engine(*component) == self.engine(),
            linker_engine(*linker) == self.engine(),
            store_engine(store) == self.engine(),
        ensures
            ran_in(self.configuration(), *component, *linker, store, run_outcome(r)),
    {
        let ghost ready = store;
        let mut store = store;
        let made = instantiate(linker, &mut store, component);
        let ghost started = store;
        assert(instantiated(*linker, *component, ready, started, said(made)));
        let instance = match made {
            Ok(instance) => instance,
            Err(source) => return Err(Error::Instantiate(source)),
        };
        let r = self.call_entrypoint(&instance, &mut store);
        assert(called(self.config, instance, started, run_outcome(r)));
        r
    }

    /// Compile, instantiate and call the configured entrypoint.
    ///
    /// The component finds no imports beyond the configured ones.
    pub fn run_component(&self, bytes: &[u8]) -> (r: Result<RunOutput, Error>)
        ensures
            ran(self.engine(), self.configuration(), bytes@, false, run_outcome(r)),
    {
        self.run_component_interrupted(bytes, false)
    }

    /// Compile, instantiate and call the configured entrypoint. Where the run is
    /// already interrupted, it traps at its first epoch check.
    pub fn run_component_interrupted(&self, bytes: &[u8], interrupted: bool) -> (r: Result<
        RunOutput,
        Error,
    >)
        ensures
            ran(self.engine(), self.configuration(), bytes@, interrupted, run_outcome(r)),
    {
        let (component, linker) = match self.prepare(bytes) {
            Ok(prepared) => prepared,
            Err(e) => return Err(e),
        };
        let mut store = match self.store() {
            Ok(store) => store,
            Err(e) => return Err(e),
        };
        if interrupted {
            set_deadline(&mut store, 0);
        }
        self.run_in(&component, &linker, store)
    }

    /// Compile, instantiate and call the configured entrypoint, so that the
    /// handle can interrupt it. The handle must be of this runner.
    pub fn run_component_with_interrupt(
        &self,
        bytes: &[u8],
        interrupt: &CodeModeInterruptHandle,
    ) -> (r: Result<RunOutput, Error>)
        ensures
            if self.engine() != interrupt.engine() {
                run_outcome(r) == Err::<RunOutputView, RunErrorView>(foreign_handle())
            } else {
                ran_watched(
                    self.engine(),
                    self.configuration(),
                    bytes@,
                    interrupt.flag(),
                    run_outcome(r),
                )
            },
    {
        if !same_engine(&self.engine, &interrupt.engine) {
            return Err(
                Error::Run(
                    "interrupt handle belongs to a different code-mode runner".to_owned(),
                ),
            );
        }
        let (component, linker) = match self.prepare(bytes) {
            Ok(prepared) => prepared,
            Err(e) => return Err(e),
        };
        let mut store = match self.store() {
            Ok(store) => store,
            Err(e) => return Err(e),
        };
        // The deadline counts from the epoch at which it was armed, and an interrupt
        // sets the flag before it advances the epoch. So one that came before the
        // arming shows in the flag, and one that comes after it meets the deadline.
        let ghost armed = store;
        let interrupted = read_flag(&interrupt.interrupted, &store);
        assert(flag_read(interrupt.flag(), armed, interrupted));
        if interrupted {
            set_deadline(&mut store, 0);
        }
        self.run_in(&component, &linker, store)
    }

    /// Call the entrypoint of an instance with the signatures that the
    /// configuration admits of, in their order.
    fn call_entrypoint(
        &self,
        instance: &wasmtime::component::Instance,
        store: &mut wasmtime::Store<()>,
    ) -> (r: Result<RunOutput, Error>)
        requires
            owns_instance(*old(store), *instance),
        ensures
            called(self.configuration(), *instance, *old(store), run_outcome(r)),
    {
        let ghost started = *store;
        let shape = self.config.result_shape();
        let name = self.config.entrypoint.as_str();
        if shape == ResultShape::Nothing {
            let unit = self.try_unit(instance, store);
            return settle_unit_attempt(name, None, unit);
        }
        let attempt = self.try_string(instance, store);
        let ghost looked = choose|looked: wasmtime::Store<()>|
            {
                &&& #[trigger] string_attempted(*instance, name@, started, looked, attempt)
                &&& attempt is NotCallable ==> *store == looked && owns_instance(looked, *instance)
            };
        let ghost tried = attempt;
        assert(string_attempted(*instance, name@, started, looked, tried));
        match settle_string_attempt(name, shape, attempt) {
            Ok(done) => done,
            Err(refused) => {
                let unit = self.try_unit(instance, store);
                assert(unit_attempted(*instance, name@, looked, unit));
                settle_unit_attempt(name, Some(refused), unit)
            },
        }
    }
}

/// A string is needed exactly where the host gives one, and nothing is looked for
/// exactly where the host neither gives one nor serves capabilities.
pub proof fn host_decides_the_result(config: RunnerConfig)
    ensures
        result_shape(config) == ResultShape::StringRequired
            <==> config.host_imports.host_result is Some,
        result_shape(config) == ResultShape::Nothing <==> config.host_imports.host_result is None
            && config.capability_invoke is None,
{
}

/// A run gives what the entrypoint returned, under the entrypoint's name; a trap
/// is a failure of the run, told as it was said. An entrypoint that gives no
/// string is tried without one, unless a string is needed, and where it is not
/// callable either way, what was said first is told.
pub proof fn runs_give_what_the_entrypoint_gave(
    entrypoint: Seq<char>,
    shape: ResultShape,
    refused: Option<Seq<char>>,
    attempt: Attempt,
)
    ensures
        attempt matches Attempt::Returned(result) ==> (after_string_attempt(
            entrypoint,
            shape,
            attempt,
        ) matches Some(Ok(output)) && output.entrypoint == entrypoint && (output.result is Some
            <==> result is Some) && (result matches Some(text) ==> output.result->0 == text@)),
        attempt is Returned ==> (after_unit_attempt(entrypoint, refused, attempt) matches Ok(output)
            && output.entrypoint == entrypoint && output.result is None),
        attempt matches Attempt::Trapped(said) ==> {
            &&& after_string_attempt(entrypoint, shape, attempt) == Some(
                Err::<RunOutputView, RunErrorView>(RunErrorView::Run(said@)),
            )
            &&& after_unit_attempt(entrypoint, refused, attempt) == Err::<
                RunOutputView,
                RunErrorView,
            >(RunErrorView::Run(said@))
        },
        after_string_attempt(entrypoint, shape, attempt) is None <==> attempt is NotCallable && shape
            != ResultShape::StringRequired,
        attempt matches Attempt::NotCallable(said) ==> (after_unit_attempt(
            entrypoint,
            refused,
            attempt,
        ) matches Err(RunErrorView::Entrypoint { name, source }) && name == entrypoint && (
        refused matches Some(first) ==> source == first) && (refused is None ==> source == said@)),
        attempt matches Attempt::NotCallable(said) ==> (shape == ResultShape::StringRequired ==> (
        after_string_attempt(entrypoint, shape, attempt) matches Some(
            Err(RunErrorView::Entrypoint { name, source }),
        ) && name == entrypoint && source == said@)),
{
}

/// What a linker serves is what is configured: the fixed text under its import
/// where there is one, the handler under its own where there is one, and no other
/// import.
pub proof fn linkers_serve_what_is_configured(
    linker: wasmtime::component::Linker<()>,
    config: RunnerConfig,
    name: Seq<char>,
)
    requires
        holds_configured_imports(linker, config),
    ensures
        linked_texts(linker).contains_key(name) <==> config.host_imports.host_result is Some && name
            == DEFAULT_HOST_RESULT_IMPORT@,
        config.host_imports.host_result matches Some(text) ==> linked_texts(
            linker,
        )[DEFAULT_HOST_RESULT_IMPORT@] == text@,
        linked_handlers(linker).contains(name) <==> config.capability_invoke is Some && name
            == DEFAULT_CAPABILITY_INVOKE_IMPORT@,
{
}

/// Calling an instance that ends well gives an output under the entrypoint's
/// name, with a string where one is needed and without one where none is looked
/// for.
pub proof fn output_has_the_configured_shape(
    config: RunnerConfig,
    instance: wasmtime::component::Instance,
    store: wasmtime::Store<()>,
    r: Result<RunOutputView, RunErrorView>,
)
    requires
        called(config, instance, store, r),
    ensures
        r matches Ok(output) ==> {
            &&& output.entrypoint == config.entrypoint@
            &&& config.host_imports.host_result is Some ==> output.result is Some
            &&& config.host_imports.host_result is None && config.capability_invoke is None
                ==> output.result is None
        },
        r matches Err(e) ==> e is Run || (e matches RunErrorView::Entrypoint { name, source: _ }
            && name == config.entrypoint@),
{
}

/// A store that is ready for a run has the fuel of the run and belongs to its
/// engine, and its deadline has passed just where the run is interrupted.
pub proof fn interrupted_runs_have_no_time(
    store: wasmtime::Store<()>,
    engine: wasmtime::Engine,
    fuel: u64,
    interrupted: bool,
)
    requires
        readied(store, engine, fuel, interrupted),
    ensures
        store_engine(store) == engine,
        store_fuel(store) == fuel,
        store_deadline(store) == 0 <==> interrupted,
{
}

/// Under a flag a run is watched in time: the flag is read once the deadline of
/// the run is set, so that an interrupt is either read or meets the deadline; and
/// a run that was not interrupted goes on in that same store, with its fuel.
pub proof fn flag_is_read_under_a_deadline(
    engine: wasmtime::Engine,
    config: RunnerConfig,
    component: wasmtime::component::Component,
    linker: wasmtime::component::Linker<()>,
    flag: AtomicBool,
    r: Result<RunOutputView, RunErrorView>,
)
    requires
        ran_linked_watched(engine, config, component, linker, flag, r),
        meters_fuel(engine_config(engine)),
    ensures
        exists|armed: wasmtime::Store<()>, interrupted: bool, store: wasmtime::Store<()>|
            {
                &&& #[trigger] flag_read(flag, armed, interrupted)
                &&& #[trigger] ran_in(config, component, linker, store, r)
                &&& store_engine(armed) == engine && store_engine(store) == engine
                &&& store_fuel(store) == config.fuel
                &&& store_deadline(armed) > 0
                &&& store_deadline(store) == 0 <==> interrupted
                &&& !interrupted ==> store == armed
            },
{
}

/// A runner's engine takes components, meters their fuel and checks for
/// interrupts.
pub proof fn engines_are_set_up_for_bounded_runs(config: wasmtime::Config)
    requires
        suits_components(config),
    ensures
        takes_components(config),
        meters_fuel(config),
        checks_epochs(config),
{
}

/// Calling for a string gives a string where it gives anything, calling for
/// nothing gives none, and an entrypoint that is not callable is told as the
/// machine told it.
pub proof fn attempts_give_what_they_call_for(
    instance: wasmtime::component::Instance,
    name: Seq<char>,
    store: wasmtime::Store<()>,
    looked: wasmtime::Store<()>,
    string: Attempt,
    unit: Attempt,
)
    requires
        string_attempted(instance, name, store, looked, string),
        unit_attempted(instance, name, store, unit),
    ensures
        string matches Attempt::Returned(result) ==> result is Some,
        unit matches Attempt::Returned(result) ==> result is None,
        string matches Attempt::NotCallable(source) ==> string_export(
            instance,
            name,
            store,
            looked,
            Err(source@),
        ),
        unit matches Attempt::NotCallable(source) ==> exists|after: wasmtime::Store<()>|
            #[trigger] unit_export(instance, name, store, after, Err(source@)),
{
}

/// Linking is refused only where there is something to link, and what was linked
/// belongs to the engine.
pub proof fn linking_fails_only_on_an_import(
    engine: wasmtime::Engine,
    config: RunnerConfig,
    r: Result<wasmtime::component::Linker<()>, Seq<char>>,
)
    requires
        linked_for(engine, config, r),
    ensures
        r is Err ==> config.host_imports.host_result is Some || config.capability_invoke is Some,
        r matches Ok(linker) ==> linker_engine(linker) == engine,
{
}

} // verus!
