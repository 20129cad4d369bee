//! The canonical agent event stream. Every protocol adapter is a translation of this
//! stream, never its own agent loop.
use vstd::prelude::*;
use crate::wire::Wire;

verus! {

/// Message author role.
#[derive(Debug, Clone, Copy, PartialEq, Eq, Structural)]
pub enum Role {
    System,
    User,
    Assistant,
    Tool,
}

/// Why a run finished.
#[derive(Debug, Clone, Copy, PartialEq, Eq, Structural)]
pub enum FinishReason {
    Stop,
    Length,
    ToolCalls,
    Refusal,
    Error,
}

/// Why the coverage gate refused.
#[derive(Debug, Clone, Copy, PartialEq, Eq, Structural)]
pub enum RefusalReason {
    /// No retrieved passage: an out-of-corpus question.
    NoCoverage,
    /// The question asks for interpretation beyond the recorded words and deeds.
    OutOfScope,
    /// Coverage exists but is too weakly attested to answer with confidence.
    InsufficientAttestation,
}

/// The one event type every surface reshapes. Identifiers are UUID values; scores are
/// `f32` bit patterns; JSON payloads are [`Wire`] values.
#[derive(Debug)]
pub enum AgentEvent {
    RunStarted { run_id: u128, session_id: u128 },
    TextMessageStart { message_id: u128, role: Role },
    TextMessageDelta { message_id: u128, delta: String },
    TextMessageEnd { message_id: u128 },
    ToolCallStart { tool_call_id: u128, name: String },
    ToolCallArgsDelta { tool_call_id: u128, delta: String },
    ToolCallEnd { tool_call_id: u128 },
    ToolResult { tool_call_id: u128, content: Wire },
    /// Every grounded claim traces to a verse the user can verify.
    Citation { ref_: String, score_bits: u32, span: Option<(usize, usize)> },
    /// The retrieval set, for the mind-map and debug surfaces.
    StateSnapshot { state: Wire },
    /// The coverage gate fired before generation.
    Refusal { reason: RefusalReason },
    /// An additive, namespaced custom chunk such as `x-jesus-twin/low-confidence`.
    Custom { name: String, data: Wire },
    RunFinished { run_id: u128, finish: FinishReason },
    Error { code: String, message: String },
}

} // verus!

verus! {

use crate::wire::{Json, json};

/// The mathematical value of an [`AgentEvent`]: strings as character sequences, payloads as
/// [`Json`].
pub enum EventView {
    RunStarted { run_id: u128, session_id: u128 },
    TextMessageStart { message_id: u128, role: Role },
    TextMessageDelta { message_id: u128, delta: Seq<char> },
    TextMessageEnd { message_id: u128 },
    ToolCallStart { tool_call_id: u128, name: Seq<char> },
    ToolCallArgsDelta { tool_call_id: u128, delta: Seq<char> },
    ToolCallEnd { tool_call_id: u128 },
    ToolResult { tool_call_id: u128, content: Json },
    Citation { ref_: Seq<char>, score_bits: u32, span: Option<(usize, usize)> },
    StateSnapshot { state: Json },
    Refusal { reason: RefusalReason },
    Custom { name: Seq<char>, data: Json },
    RunFinished { run_id: u128, finish: FinishReason },
    Error { code: Seq<char>, message: Seq<char> },
}

pub open spec fn event_view(e: AgentEvent) -> EventView {
    match e {
        AgentEvent::RunStarted { run_id, session_id } => EventView::RunStarted { run_id, session_id },
        AgentEvent::TextMessageStart { message_id, role } => EventView::TextMessageStart {
            message_id,
            role,
        },
        AgentEvent::TextMessageDelta { message_id, delta } => EventView::TextMessageDelta {
            message_id,
            delta: delta@,
        },
        AgentEvent::TextMessageEnd { message_id } => EventView::TextMessageEnd { message_id },
        AgentEvent::ToolCallStart { tool_call_id, name } => EventView::ToolCallStart {
            tool_call_id,
            name: name@,
        },
        AgentEvent::ToolCallArgsDelta { tool_call_id, delta } => EventView::ToolCallArgsDelta {
            tool_call_id,
            delta: delta@,
        },
        AgentEvent::ToolCallEnd { tool_call_id } => EventView::ToolCallEnd { tool_call_id },
        AgentEvent::ToolResult { tool_call_id, content } => EventView::ToolResult {
            tool_call_id,
            content: json(content),
        },
        AgentEvent::Citation { ref_, score_bits, span } => EventView::Citation {
            ref_: ref_@,
            score_bits,
            span,
        },
        AgentEvent::StateSnapshot { state } => EventView::StateSnapshot { state: json(state) },
        AgentEvent::Refusal { reason } => EventView::Refusal { reason },
        AgentEvent::Custom { name, data } => EventView::Custom { name: name@, data: json(data) },
        AgentEvent::RunFinished { run_id, finish } => EventView::RunFinished { run_id, finish },
        AgentEvent::Error { code, message } => EventView::Error {
            code: code@,
            message: message@,
        },
    }
}

pub open spec fn event_views(s: Seq<AgentEvent>) -> Seq<EventView> {
    s.map_values(|e: AgentEvent| event_view(e))
}

} // verus!
