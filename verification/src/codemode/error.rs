//! The failures of a component's execution.

use vstd::prelude::*;
use vstd::string::*;

use crate::text::{begins_with, concat_text, concat_three, finishes_with, lemma_message};

verus! {

/// The ways in which running a component fails; each carries what the engine
/// said.
#[derive(Debug, PartialEq, Eq)]
#[non_exhaustive]
pub enum Error {
    /// The engine could not be configured.
    Engine(String),
    /// The component could not be compiled.
    Compile(String),
    /// The fuel budget could not be set.
    Fuel(String),
    /// The component could not be instantiated.
    Instantiate(String),
    /// The entrypoint is missing or has another signature.
    Entrypoint {
        /// The entrypoint that was asked for.
        name: String,
        /// What the engine said.
        source: String,
    },
    /// The entrypoint trapped or failed while it ran.
    Run(String),
}

/// A failure, with its texts as sequences.
#[verifier::ext_equal]
pub enum RunErrorView {
    Engine(Seq<char>),
    Compile(Seq<char>),
    Fuel(Seq<char>),
    Instantiate(Seq<char>),
    Entrypoint { name: Seq<char>, source: Seq<char> },
    Run(Seq<char>),
}

impl View for Error {
    type V = RunErrorView;

    open spec fn view(&self) -> RunErrorView {
        match self {
            Error::Engine(source) => RunErrorView::Engine(source@),
            Error::Compile(source) => RunErrorView::Compile(source@),
            Error::Fuel(source) => RunErrorView::Fuel(source@),
            Error::Instantiate(source) => RunErrorView::Instantiate(source@),
            Error::Entrypoint { name, source } => RunErrorView::Entrypoint {
                name: name@,
                source: source@,
            },
            Error::Run(source) => RunErrorView::Run(source@),
        }
    }
}

/// How a failure is shown.
pub open spec fn run_error_text(e: RunErrorView) -> Seq<char> {
    match e {
        RunErrorView::Engine(source) => "failed to configure WASM engine: "@ + source,
        RunErrorView::Compile(source) => "failed to compile WASM component: "@ + source,
        RunErrorView::Fuel(source) => "failed to initialize WASM fuel: "@ + source,
        RunErrorView::Instantiate(source) => "failed to instantiate WASM component: "@ + source,
        RunErrorView::Entrypoint { name, source } => "WASM component entrypoint `"@ + name
            + "` is not callable with the configured signature"@,
        RunErrorView::Run(source) => "WASM component execution failed: "@ + source,
    }
}

impl Error {
    /// How the failure is shown.
    pub fn text(&self) -> (r: String)
        ensures
            r@ == run_error_text(self@),
    {
        match self {
            Error::Engine(source) => concat_text(
                "failed to configure WASM engine: ",
                source.as_str(),
            ),
            Error::Compile(source) => concat_text(
                "failed to compile WASM component: ",
                source.as_str(),
            ),
            Error::Fuel(source) => concat_text("failed to initialize WASM fuel: ", source.as_str()),
            Error::Instantiate(source) => concat_text(
                "failed to instantiate WASM component: ",
                source.as_str(),
            ),
            Error::Entrypoint { name, source: _ } => concat_three(
                "WASM component entrypoint `",
                name.as_str(),
                "` is not callable with the configured signature",
            ),
            Error::Run(source) => concat_text("WASM component execution failed: ", source.as_str()),
        }
    }
}

/// A failed run is told by the stage that failed, and then by what was said.
pub proof fn failed_runs_are_told_by_their_stage(e: RunErrorView)
    ensures
        e matches RunErrorView::Engine(source) ==> begins_with(run_error_text(e), "failed to configure WASM engine: "@) && finishes_with(
            run_error_text(e),
            source,
        ),
        e matches RunErrorView::Compile(source) ==> begins_with(run_error_text(e), "failed to compile WASM component: "@) && finishes_with(
            run_error_text(e),
            source,
        ),
        e matches RunErrorView::Fuel(source) ==> begins_with(run_error_text(e), "failed to initialize WASM fuel: "@) && finishes_with(
            run_error_text(e),
            source,
        ),
        e matches RunErrorView::Instantiate(source) ==> begins_with(run_error_text(e), "failed to instantiate WASM component: "@) && finishes_with(
            run_error_text(e),
            source,
        ),
        e matches RunErrorView::Run(source) ==> begins_with(run_error_text(e), "WASM component execution failed: "@) && finishes_with(
            run_error_text(e),
            source,
        ),
{
    match e {
        RunErrorView::Engine(source) => {
            lemma_message(run_error_text(e), "failed to configure WASM engine: "@, source);
        },
        RunErrorView::Compile(source) => {
            lemma_message(run_error_text(e), "failed to compile WASM component: "@, source);
        },
        RunErrorView::Fuel(source) => {
            lemma_message(run_error_text(e), "failed to initialize WASM fuel: "@, source);
        },
        RunErrorView::Instantiate(source) => {
            lemma_message(run_error_text(e), "failed to instantiate WASM component: "@, source);
        },
        RunErrorView::Run(source) => {
            lemma_message(run_error_text(e), "WASM component execution failed: "@, source);
        },
        _ => {},
    }
}

} // verus!
