//! The decisions of the request dispatcher.
//!
//! When a request arrives, `begin` resolves it against the current server
//! state and either answers at once or says what to run, copying the
//! binding and the script text out of one and the same state. When the
//! run has ended, `outcome_of` reads its result slot and `respond` turns
//! the outcome into the response.
//!
//! Whatever happens to one request stays in that request's response: a
//! script that throws gives a structured failure with the error's message
//! and stack, a failing store gives a server error, an unknown path gives
//! not-found. None of these touches the server state.

use vstd::prelude::*;
use vstd::string::*;
use crate::server::{
    declares, law_resolved_binding_is_declared, resolution, route_path, Resolution,
    ResolutionView, ServerSlot, Verb,
};
use crate::store::StoreError;

verus! {

/// How the handling of one request ended.
#[derive(Debug, PartialEq, Eq)]
pub enum Outcome {
    /// The liveness endpoint was asked.
    Alive,
    /// The invoked method returned this serialized value.
    Returned(String),
    /// The script threw; message and stack are those of the error.
    Threw { message: String, stack: String },
    /// The store failed during the invocation.
    StoreFailed(StoreError),
    /// The invocation ran out of time and its engine was discarded.
    TimedOut,
    /// No route matched the request.
    NotFound,
}

/// An error that the script's wrapper caught.
#[derive(Debug, PartialEq, Eq)]
pub struct Caught {
    pub message: String,
    pub stack: String,
}

/// What a run leaves in the result slot: the serialized value, and the
/// error that was caught, if any.
#[derive(Debug, PartialEq, Eq)]
pub struct ResultSlot {
    pub value: String,
    pub error: Option<Caught>,
}

/// The outcome of a run that left `slot`: a caught error counts as thrown,
/// whatever value stands beside it.
pub fn outcome_of(slot: ResultSlot) -> (outcome: Outcome)
    ensures
        outcome == match slot.error {
            Some(caught) => (Outcome::Threw { message: caught.message, stack: caught.stack }),
            None => Outcome::Returned(slot.value),
        },
{
    match slot.error {
        Some(caught) => Outcome::Threw { message: caught.message, stack: caught.stack },
        None => Outcome::Returned(slot.value),
    }
}

/// The body of a response.
#[derive(Debug, PartialEq, Eq)]
pub enum Body {
    /// A plain value: the serialized return value, or a fixed text. The
    /// liveness endpoint answers with the JSON string `"OK"`.
    Text(String),
    /// A structured error.
    Failure { message: String, stack: String },
}

/// A response: an HTTP status and a body.
#[derive(Debug, PartialEq, Eq)]
pub struct Response {
    pub status: u16,
    pub body: Body,
}

/// The status with which an outcome is answered.
pub open spec fn status_of(outcome: Outcome) -> u16 {
    match outcome {
        Outcome::Alive => 200,
        Outcome::Returned(_) => 200,
        Outcome::Threw { .. } => 500,
        Outcome::StoreFailed(StoreError::Unreachable) => 503,
        Outcome::StoreFailed(StoreError::CommitFailed) => 500,
        Outcome::TimedOut => 504,
        Outcome::NotFound => 404,
    }
}

/// Whether `body` is the plain text `text`.
pub open spec fn is_text(body: Body, text: Seq<char>) -> bool {
    match body {
        Body::Text(t) => t@ == text,
        Body::Failure { .. } => false,
    }
}

/// Whether `body` is the structured error with `message` and `stack`.
pub open spec fn is_failure(body: Body, message: Seq<char>, stack: Seq<char>) -> bool {
    match body {
        Body::Text(_) => false,
        Body::Failure { message: m, stack: s } => m@ == message && s@ == stack,
    }
}

/// Whether `body` is the body with which `outcome` is answered.
pub open spec fn body_answers(outcome: Outcome, body: Body) -> bool {
    match outcome {
        Outcome::Alive => is_text(body, "\"OK\""@),
        Outcome::Returned(value) => is_text(body, value@),
        Outcome::Threw { message, stack } => is_failure(body, message@, stack@),
        Outcome::StoreFailed(StoreError::Unreachable) => is_failure(
            body,
            "store unreachable"@,
            Seq::empty(),
        ),
        Outcome::StoreFailed(StoreError::CommitFailed) => is_failure(
            body,
            "commit failed"@,
            Seq::empty(),
        ),
        Outcome::TimedOut => is_failure(body, "invocation timed out"@, Seq::empty()),
        Outcome::NotFound => is_text(body, "Not Found"@),
    }
}

/// The response for `outcome`.
pub fn respond(outcome: Outcome) -> (response: Response)
    ensures
        response.status == status_of(outcome),
        body_answers(outcome, response.body),
{
    match outcome {
        Outcome::Alive => Response { status: 200, body: Body::Text(String::from_str("\"OK\"")) },
        Outcome::Returned(value) => Response { status: 200, body: Body::Text(value) },
        Outcome::Threw { message, stack } => Response {
            status: 500,
            body: Body::Failure { message, stack },
        },
        Outcome::StoreFailed(StoreError::Unreachable) => Response {
            status: 503,
            body: Body::Failure {
                message: String::from_str("store unreachable"),
                stack: String::new(),
            },
        },
        Outcome::StoreFailed(StoreError::CommitFailed) => Response {
            status: 500,
            body: Body::Failure { message: String::from_str("commit failed"), stack: String::new() },
        },
        Outcome::TimedOut => Response {
            status: 504,
            body: Body::Failure {
                message: String::from_str("invocation timed out"),
                stack: String::new(),
            },
        },
        Outcome::NotFound => Response {
            status: 404,
            body: Body::Text(String::from_str("Not Found")),
        },
    }
}

/// What the dispatcher does with a request that has arrived.
#[derive(Debug, PartialEq, Eq)]
pub enum Action {
    /// Answer at once.
    Answer(Response),
    /// Run `method` of `class` on a new engine instance that has loaded
    /// `script`, then answer with the outcome.
    Run { script: String, class: String, method: String },
}

/// Whether `action` is what a request that resolved to `resolved` calls
/// for, in a state whose script text is `source`.
pub open spec fn action_for(resolved: ResolutionView, source: Seq<char>, action: Action) -> bool {
    match resolved {
        ResolutionView::Status => action matches Action::Answer(r) && r.status == 200
            && body_answers(Outcome::Alive, r.body),
        ResolutionView::NotFound => action matches Action::Answer(r) && r.status == 404
            && body_answers(Outcome::NotFound, r.body),
        ResolutionView::Invoke { class, method } => action matches Action::Run {
            script: s,
            class: c,
            method: m,
        } && s@ == source && c@ == class && m@ == method,
    }
}

/// Decides what to do with a request. The slot is only read, and nothing
/// of it is kept: binding and script text are copies.
pub fn begin(slot: &ServerSlot, verb: Verb, path: &str) -> (action: Action)
    ensures
        action_for(
            resolution(slot.state().routes(), verb, path@),
            slot.state().source(),
            action,
        ),
{
    match slot.resolve(verb, path) {
        Resolution::Status => Action::Answer(respond(Outcome::Alive)),
        Resolution::NotFound => Action::Answer(respond(Outcome::NotFound)),
        Resolution::Invoke { class, method } => Action::Run { script: slot.script(), class, method },
    }
}

/// A request sees one version only: what it is told to run is the script
/// text of the state it was resolved against and a method that the
/// classes of that same state declare, served at the request's path.
pub proof fn law_run_is_of_one_version(
    slot: ServerSlot,
    verb: Verb,
    path: Seq<char>,
    action: Action,
)
    requires
        slot.wf(),
        action_for(resolution(slot.state().routes(), verb, path), slot.state().source(), action),
    ensures
        match action {
            Action::Run { script, class, method } => script@ == slot.state().source() && declares(
                slot.state().classes(),
                class@,
                method@,
            ) && path == route_path(class@, method@),
            Action::Answer(_) => true,
        },
{
    law_resolved_binding_is_declared(slot.state(), verb, path);
}

/// Only an outcome that is no failure is answered with a success status,
/// and every failure of the store or of time is answered with a server
/// error.
pub proof fn law_status_classes(outcome: Outcome)
    ensures
        200 <= status_of(outcome) < 300 <==> (outcome is Alive || outcome is Returned),
        (outcome is StoreFailed || outcome is TimedOut || outcome is Threw) ==> 500 <= status_of(
            outcome,
        ) < 600,
{
}

} // verus!
