//! Core types of the agent runtime: terminal output events, agent state changes and
//! runtime errors.
use vstd::prelude::*;
use crate::agent_status::AgentStatus;
use crate::text::{extend_str, string_from_chars};

verus! {

/// Terminal output of one pane.
#[derive(Clone, Debug)]
pub struct TerminalEvent {
    pub bytes: Vec<u8>,
    pub pane_id: String,
    /// When it was read, in milliseconds since the Unix epoch.
    pub timestamp: u64,
}

/// A new status of an agent.
#[derive(Clone, Debug)]
pub struct AgentStateChange {
    pub agent_id: String,
    pub state: AgentStatus,
}

/// Errors of a runtime backend.
#[derive(Clone, Debug)]
pub enum RuntimeError {
    Backend(String),
    PaneNotFound(String),
    Session(String),
}

/// The message of a runtime error.
pub open spec fn runtime_error_text(e: RuntimeError) -> Seq<char> {
    match e {
        RuntimeError::Backend(s) => "backend error: "@ + s@,
        RuntimeError::PaneNotFound(s) => "pane not found: "@ + s@,
        RuntimeError::Session(s) => "session error: "@ + s@,
    }
}

impl RuntimeError {
    /// The message: the kind of error, then its detail.
    pub fn message(&self) -> (r: String)
        ensures
            r@ == runtime_error_text(*self),
    {
        let mut v: Vec<char> = Vec::new();
        match self {
            RuntimeError::Backend(s) => {
                extend_str(&mut v, "backend error: ");
                extend_str(&mut v, s.as_str());
            },
            RuntimeError::PaneNotFound(s) => {
                extend_str(&mut v, "pane not found: ");
                extend_str(&mut v, s.as_str());
            },
            RuntimeError::Session(s) => {
                extend_str(&mut v, "session error: ");
                extend_str(&mut v, s.as_str());
            },
        }
        string_from_chars(&v)
    }
}

} // verus!
