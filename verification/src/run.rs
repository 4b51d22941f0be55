//! One compile-and-query run, as a machine that is driven from outside.
//!
//! The caller owns the world, the compiler and the streams. It performs each
//! [`Action`] that the machine asks for and reports back with an [`Event`];
//! the machine decides what comes next and, at the end, what the run is worth.

use crate::query::{error_text, QueryError};
use vstd::prelude::*;

verus! {

/// Where a run stands.
#[derive(Debug, PartialEq, Eq)]
pub enum State {
    /// Before the compiler: the world has yet to be reset and its main source
    /// found.
    Idle,
    /// The compiler is at work.
    Compiling,
    /// The compiler returned a document. `answer` is what the query made of
    /// it, once that is known.
    Succeeded { answer: Option<Result<String, QueryError>> },
    /// The compiler returned errors.
    Failed,
    /// The run is over.
    Finished,
}

/// What the caller reports back.
#[derive(Debug, PartialEq, Eq)]
pub enum Event {
    /// The run is to begin.
    Start,
    /// The world was reset. `main_error` says why its main source cannot be
    /// loaded, if it cannot.
    WorldReset { main_error: Option<String> },
    /// The compiler returned, with a document or with errors.
    Compiled { succeeded: bool },
    /// The query on the document ended with this text or this error.
    Queried { answer: Result<String, QueryError> },
    /// The diagnostics were handed to the report, which was written or not.
    Reported { rendered: bool },
}

/// Why a run failed.
#[derive(Debug, PartialEq, Eq)]
pub enum RunError {
    /// The main source could not be loaded after the reset.
    SourceUnavailable { reason: String },
    /// The compiler returned errors; they were reported.
    CompileDiagnostics,
    /// The document compiled and the query on it failed.
    Query { error: QueryError },
    /// The diagnostics could not be reported.
    Render,
}

/// What a run is worth: the text for standard output, or the failure.
#[derive(Debug, PartialEq, Eq)]
pub struct Outcome {
    /// The result of the query, to be printed as one line.
    pub output: Option<String>,
    /// Why the process is to exit with a failure.
    pub failure: Option<RunError>,
}

/// What is told on standard error of a failure, besides the diagnostics.
/// Compile errors have been told by the report and get no further message.
pub open spec fn failure_text(failure: RunError) -> Option<Seq<char>> {
    match failure {
        RunError::SourceUnavailable { reason } => Some(reason@),
        RunError::CompileDiagnostics => None,
        RunError::Query { error } => Some(error_text(error)),
        RunError::Render => Some("failed to print diagnostics"@),
    }
}

/// The message as a value of the executable kind.
pub open spec fn message_view(message: Option<String>) -> Option<Seq<char>> {
    match message {
        Some(text) => Some(text@),
        None => None,
    }
}

impl RunError {
    /// What is told on standard error of this failure, besides the
    /// diagnostics.
    pub fn message(&self) -> (message: Option<String>)
        ensures
            message_view(message) == failure_text(*self),
    {
        match self {
            RunError::SourceUnavailable { reason } => Some(reason.clone()),
            RunError::CompileDiagnostics => None,
            RunError::Query { error } => Some(error.message()),
            RunError::Render => Some(String::from_str("failed to print diagnostics")),
        }
    }
}

impl Outcome {
    /// Whether the process is to exit with a failure.
    pub fn failed(&self) -> (failed: bool)
        ensures
            failed == self.failure is Some,
    {
        self.failure.is_some()
    }
}

/// What the caller is to do next.
#[derive(Debug, PartialEq, Eq)]
pub enum Action {
    /// Reset the world, so that nothing cached by an earlier run is left, and
    /// look up its main source.
    ResetWorld,
    /// Run the compiler.
    Compile,
    /// Run the query on the document.
    Query,
    /// Report the warnings, after the errors where `errors` is set.
    Report { errors: bool },
    /// End the run with this outcome.
    Finish { outcome: Outcome },
    /// Nothing: the event does not belong to the state.
    Ignore,
}

/// The outcome of a run whose document compiled, once the query has been
/// answered and the warnings handed to the report.
pub open spec fn settled(answer: Result<String, QueryError>, rendered: bool) -> Outcome {
    if !rendered {
        Outcome { output: None, failure: Some(RunError::Render) }
    } else {
        match answer {
            Ok(text) => Outcome { output: Some(text), failure: None },
            Err(error) => Outcome { output: None, failure: Some(RunError::Query { error }) },
        }
    }
}

/// The outcome of a run whose document did not compile, once the diagnostics
/// have been handed to the report.
pub open spec fn defeated(rendered: bool) -> Outcome {
    Outcome {
        output: None,
        failure: Some(
            if rendered {
                RunError::CompileDiagnostics
            } else {
                RunError::Render
            },
        ),
    }
}

/// The state and the action that follow `event` in `state`.
pub open spec fn step(state: State, event: Event) -> (State, Action) {
    match (state, event) {
        (State::Idle, Event::Start) => (State::Idle, Action::ResetWorld),
        (State::Idle, Event::WorldReset { main_error: None }) => (
            State::Compiling,
            Action::Compile,
        ),
        (State::Idle, Event::WorldReset { main_error: Some(reason) }) => (
            State::Finished,
            Action::Finish {
                outcome: Outcome {
                    output: None,
                    failure: Some(RunError::SourceUnavailable { reason }),
                },
            },
        ),
        (State::Compiling, Event::Compiled { succeeded: true }) => (
            State::Succeeded { answer: None },
            Action::Query,
        ),
        (State::Compiling, Event::Compiled { succeeded: false }) => (
            State::Failed,
            Action::Report { errors: true },
        ),
        (State::Succeeded { answer: None }, Event::Queried { answer }) => (
            State::Succeeded { answer: Some(answer) },
            Action::Report { errors: false },
        ),
        (State::Succeeded { answer: Some(answer) }, Event::Reported { rendered }) => (
            State::Finished,
            Action::Finish { outcome: settled(answer, rendered) },
        ),
        (State::Failed, Event::Reported { rendered }) => (
            State::Finished,
            Action::Finish { outcome: defeated(rendered) },
        ),
        (state, _) => (state, Action::Ignore),
    }
}

/// Takes a run one step on: given where it stands and what the caller reports,
/// says where it stands now and what the caller is to do next.
///
/// A run begins in [`State::Idle`] with [`Event::Start`]. The world is reset
/// before the compiler runs, and the compiler does not run unless the main
/// source can be loaded. Whatever the compiler returns, the diagnostics are
/// handed to the report before the run ends: the warnings after a query,
/// however it ended, and the errors with the warnings after a failed compile.
pub fn query(state: State, event: Event) -> (next: (State, Action))
    ensures
        next == step(state, event),
{
    match state {
        State::Idle => match event {
            Event::Start => (State::Idle, Action::ResetWorld),
            Event::WorldReset { main_error } => match main_error {
                None => (State::Compiling, Action::Compile),
                Some(reason) => (
                    State::Finished,
                    Action::Finish {
                        outcome: Outcome {
                            output: None,
                            failure: Some(RunError::SourceUnavailable { reason }),
                        },
                    },
                ),
            },
            _ => (State::Idle, Action::Ignore),
        },
        State::Compiling => match event {
            Event::Compiled { succeeded } => if succeeded {
                (State::Succeeded { answer: None }, Action::Query)
            } else {
                (State::Failed, Action::Report { errors: true })
            },
            _ => (State::Compiling, Action::Ignore),
        },
        State::Succeeded { answer: None } => match event {
            Event::Queried { answer } => (
                State::Succeeded { answer: Some(answer) },
                Action::Report { errors: false },
            ),
            _ => (State::Succeeded { answer: None }, Action::Ignore),
        },
        State::Succeeded { answer: Some(answer) } => match event {
            Event::Reported { rendered } => (
                State::Finished,
                Action::Finish { outcome: settle(answer, rendered) },
            ),
            _ => (State::Succeeded { answer: Some(answer) }, Action::Ignore),
        },
        State::Failed => match event {
            Event::Reported { rendered } => (
                State::Finished,
                Action::Finish { outcome: defeat(rendered) },
            ),
            _ => (State::Failed, Action::Ignore),
        },
        State::Finished => (State::Finished, Action::Ignore),
    }
}

/// The outcome of a run whose document compiled. The text of the query goes
/// out only if the query gave one and the warnings were reported.
pub fn settle(answer: Result<String, QueryError>, rendered: bool) -> (outcome: Outcome)
    ensures
        outcome == settled(answer, rendered),
{
    if !rendered {
        Outcome { output: None, failure: Some(RunError::Render) }
    } else {
        match answer {
            Ok(text) => Outcome { output: Some(text), failure: None },
            Err(error) => Outcome { output: None, failure: Some(RunError::Query { error }) },
        }
    }
}

/// The outcome of a run whose document did not compile: a failure, which
/// tells a report that could not be written from one that was.
pub fn defeat(rendered: bool) -> (outcome: Outcome)
    ensures
        outcome == defeated(rendered),
{
    Outcome {
        output: None,
        failure: Some(
            if rendered {
                RunError::CompileDiagnostics
            } else {
                RunError::Render
            },
        ),
    }
}

/// The compiler runs only after a reset that left the main source loadable.
pub proof fn lemma_compile_follows_reset(state: State, event: Event)
    ensures
        step(state, event).1 is Compile ==> state is Idle && event == (Event::WorldReset {
            main_error: None,
        }),
{
}

/// Once the compiler has run, the run ends on nothing but the return of the
/// report: after a failed compile the errors are reported, after a query the
/// warnings are, however the query ended.
pub proof fn lemma_report_is_attempted(state: State, event: Event)
    ensures
        state is Compiling && event is Compiled ==> !(step(state, event).1 is Finish),
        state == (State::Compiling) && event == (Event::Compiled { succeeded: false }) ==> step(
            state,
            event,
        ) == (State::Failed, Action::Report { errors: true }),
        state == (State::Succeeded { answer: None }) && event is Queried ==> step(state, event).1
            == (Action::Report { errors: false }),
        (state is Succeeded || state is Failed) && step(state, event).1 is Finish ==> event
            is Reported,
{
}

/// The text of the query goes out on full success only: the document
/// compiled, the query gave the text, and the warnings were reported. A run
/// that ends in any other way ends with a failure and without text.
pub proof fn lemma_output_on_full_success_only(state: State, event: Event)
    ensures
        step(state, event).1 matches Action::Finish { outcome } ==> {
            &&& outcome.output is Some <==> outcome.failure is None
            &&& outcome.output matches Some(text) ==> state == (State::Succeeded {
                answer: Some(Ok(text)),
            }) && event == (Event::Reported { rendered: true })
        },
{
}

} // verus!
