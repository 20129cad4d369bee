//! Agent errors: the orchestrator's failures, the coarse kind adapters pick a wire status
//! from, and that status.
use vstd::prelude::*;

verus! {

/// Coarse classification of an agent failure, enough for adapters to pick a wire status.
#[derive(Debug, Clone, Copy, PartialEq, Eq, Structural)]
pub enum AgentErrorKind {
    /// The client's request was malformed (e.g. no user message).
    BadRequest,
    /// Admission control rejected or timed out the request.
    Overloaded,
    /// An internal failure (store, inference).
    Internal,
}

/// A boundary error: a kind plus the message shown to the client.
#[derive(Debug, Clone)]
pub struct AgentError {
    pub kind: AgentErrorKind,
    pub message: String,
}

impl AgentError {
    pub fn new(kind: AgentErrorKind, message: &str) -> (e: Self)
        ensures
            e.kind == kind,
            e.message@ == message@,
    {
        AgentError { kind, message: String::from_str(message) }
    }
}

/// Errors the orchestrator surfaces to an adapter.
#[derive(Debug, Clone)]
pub enum OrchestratorError {
    NoUserMessage,
    AdmissionRejected(String),
    Store(String),
    Inference(String),
}

/// The display text of an orchestrator error.
pub open spec fn orchestrator_error_text(e: OrchestratorError) -> Seq<char> {
    match e {
        OrchestratorError::NoUserMessage => "no user message in session"@,
        OrchestratorError::AdmissionRejected(m) => "admission rejected: "@ + m@,
        OrchestratorError::Store(m) => "store error: "@ + m@,
        OrchestratorError::Inference(m) => "inference error: "@ + m@,
    }
}

/// The kind an orchestrator error maps to: a missing user message is the client's fault,
/// admission rejection is backpressure, anything else is internal.
pub open spec fn kind_of(e: OrchestratorError) -> AgentErrorKind {
    match e {
        OrchestratorError::NoUserMessage => AgentErrorKind::BadRequest,
        OrchestratorError::AdmissionRejected(_) => AgentErrorKind::Overloaded,
        _ => AgentErrorKind::Internal,
    }
}

impl OrchestratorError {
    /// The error's display text.
    pub fn message(&self) -> (r: String)
        ensures
            r@ == orchestrator_error_text(*self),
    {
        match self {
            OrchestratorError::NoUserMessage => String::from_str("no user message in session"),
            OrchestratorError::AdmissionRejected(m) => {
                let mut r = String::from_str("admission rejected: ");
                r.append(m.as_str());
                r
            },
            OrchestratorError::Store(m) => {
                let mut r = String::from_str("store error: ");
                r.append(m.as_str());
                r
            },
            OrchestratorError::Inference(m) => {
                let mut r = String::from_str("inference error: ");
                r.append(m.as_str());
                r
            },
        }
    }

    /// Flatten to the boundary error adapters see: the kind plus the display text.
    pub fn to_agent_error(&self) -> (e: AgentError)
        ensures
            e.kind == kind_of(*self),
            e.message@ == orchestrator_error_text(*self),
    {
        let kind = match self {
            OrchestratorError::NoUserMessage => AgentErrorKind::BadRequest,
            OrchestratorError::AdmissionRejected(_) => AgentErrorKind::Overloaded,
            _ => AgentErrorKind::Internal,
        };
        let text = self.message();
        AgentError { kind, message: text }
    }
}

/// The HTTP status for an agent error kind: 400, 503 (backpressure), or 500.
pub open spec fn status_code(kind: AgentErrorKind) -> u16 {
    match kind {
        AgentErrorKind::BadRequest => 400,
        AgentErrorKind::Overloaded => 503,
        AgentErrorKind::Internal => 500,
    }
}

/// Map an agent error kind to its wire status code.
pub fn status_for(kind: AgentErrorKind) -> (code: u16)
    ensures
        code == status_code(kind),
{
    match kind {
        AgentErrorKind::BadRequest => 400,
        AgentErrorKind::Overloaded => 503,
        AgentErrorKind::Internal => 500,
    }
}

} // verus!
