//! The AG-UI projection of the event stream: nearly one to one, since the canonical stream is
//! modelled on AG-UI. Standard events keep their standard types; the project's own signal
//! (citations, refusals, custom chunks) rides as namespaced `x-jesus-twin/...` types that
//! standard clients ignore.
use vstd::prelude::*;
use crate::event::{AgentEvent, EventView, FinishReason, RefusalReason, Role, event_view};
use crate::ids::uuid_text;
use crate::wire::{Json, Wire, arr, arr_push, entries, json, jsons, jstr, jstring, juuid, obj, obj_push};

verus! {

/// A role as it is serialized: lowercase.
pub open spec fn role_text(r: Role) -> Seq<char> {
    match r {
        Role::System => "system"@,
        Role::User => "user"@,
        Role::Assistant => "assistant"@,
        Role::Tool => "tool"@,
    }
}

/// A finish reason as it is serialized: snake case.
pub open spec fn finish_name(f: FinishReason) -> Seq<char> {
    match f {
        FinishReason::Stop => "stop"@,
        FinishReason::Length => "length"@,
        FinishReason::ToolCalls => "tool_calls"@,
        FinishReason::Refusal => "refusal"@,
        FinishReason::Error => "error"@,
    }
}

/// A refusal reason as it is serialized: snake case.
pub open spec fn reason_name(r: RefusalReason) -> Seq<char> {
    match r {
        RefusalReason::NoCoverage => "no_coverage"@,
        RefusalReason::OutOfScope => "out_of_scope"@,
        RefusalReason::InsufficientAttestation => "insufficient_attestation"@,
    }
}

pub fn role_str(r: Role) -> (s: &'static str)
    ensures
        s@ == role_text(r),
{
    match r {
        Role::System => "system",
        Role::User => "user",
        Role::Assistant => "assistant",
        Role::Tool => "tool",
    }
}

pub fn finish_str(f: FinishReason) -> (s: &'static str)
    ensures
        s@ == finish_name(f),
{
    match f {
        FinishReason::Stop => "stop",
        FinishReason::Length => "length",
        FinishReason::ToolCalls => "tool_calls",
        FinishReason::Refusal => "refusal",
        FinishReason::Error => "error",
    }
}

pub fn reason_str(r: RefusalReason) -> (s: &'static str)
    ensures
        s@ == reason_name(r),
{
    match r {
        RefusalReason::NoCoverage => "no_coverage",
        RefusalReason::OutOfScope => "out_of_scope",
        RefusalReason::InsufficientAttestation => "insufficient_attestation",
    }
}

/// A citation span: `null`, or `[start, end]`.
pub open spec fn span_json(span: Option<(usize, usize)>) -> Json {
    match span {
        Some(s) => Json::Array(seq![Json::UInt(s.0 as u64), Json::UInt(s.1 as u64)]),
        None => Json::Null,
    }
}

/// The AG-UI payload of an event.
pub open spec fn agui_json(e: EventView) -> Json {
    match e {
        EventView::RunStarted { run_id, session_id } => Json::Object(
            seq![
                ("type"@, Json::Str("RUN_STARTED"@)),
                ("runId"@, Json::Str(uuid_text(run_id))),
                ("threadId"@, Json::Str(uuid_text(session_id))),
            ],
        ),
        EventView::TextMessageStart { message_id, role } => Json::Object(
            seq![
                ("type"@, Json::Str("TEXT_MESSAGE_START"@)),
                ("messageId"@, Json::Str(uuid_text(message_id))),
                ("role"@, Json::Str(role_text(role))),
            ],
        ),
        EventView::TextMessageDelta { message_id, delta } => Json::Object(
            seq![
                ("type"@, Json::Str("TEXT_MESSAGE_CONTENT"@)),
                ("messageId"@, Json::Str(uuid_text(message_id))),
                ("delta"@, Json::Str(delta)),
            ],
        ),
        EventView::TextMessageEnd { message_id } => Json::Object(
            seq![("type"@, Json::Str("TEXT_MESSAGE_END"@)), ("messageId"@, Json::Str(uuid_text(message_id)))],
        ),
        EventView::ToolCallStart { tool_call_id, name } => Json::Object(
            seq![
                ("type"@, Json::Str("TOOL_CALL_START"@)),
                ("toolCallId"@, Json::Str(uuid_text(tool_call_id))),
                ("toolCallName"@, Json::Str(name)),
            ],
        ),
        EventView::ToolCallArgsDelta { tool_call_id, delta } => Json::Object(
            seq![
                ("type"@, Json::Str("TOOL_CALL_ARGS"@)),
                ("toolCallId"@, Json::Str(uuid_text(tool_call_id))),
                ("delta"@, Json::Str(delta)),
            ],
        ),
        EventView::ToolCallEnd { tool_call_id } => Json::Object(
            seq![("type"@, Json::Str("TOOL_CALL_END"@)), ("toolCallId"@, Json::Str(uuid_text(tool_call_id)))],
        ),
        EventView::ToolResult { tool_call_id, content } => Json::Object(
            seq![
                ("type"@, Json::Str("TOOL_CALL_RESULT"@)),
                ("toolCallId"@, Json::Str(uuid_text(tool_call_id))),
                ("content"@, content),
            ],
        ),
        EventView::StateSnapshot { state } => Json::Object(
            seq![("type"@, Json::Str("STATE_SNAPSHOT"@)), ("snapshot"@, state)],
        ),
        EventView::Citation { ref_, score_bits, span } => Json::Object(
            seq![
                ("type"@, Json::Str("x-jesus-twin/citation"@)),
                ("ref"@, Json::Str(ref_)),
                ("score"@, Json::F32(score_bits)),
                ("span"@, span_json(span)),
            ],
        ),
        EventView::Refusal { reason } => Json::Object(
            seq![("type"@, Json::Str("x-jesus-twin/refusal"@)), ("reason"@, Json::Str(reason_name(reason)))],
        ),
        EventView::Custom { name, data } => Json::Object(seq![("type"@, Json::Str(name)), ("data"@, data)]),
        EventView::RunFinished { run_id, finish } => Json::Object(
            seq![
                ("type"@, Json::Str("RUN_FINISHED"@)),
                ("runId"@, Json::Str(uuid_text(run_id))),
                ("finish"@, Json::Str(finish_name(finish))),
            ],
        ),
        EventView::Error { code, message } => Json::Object(
            seq![("type"@, Json::Str("RUN_ERROR"@)), ("code"@, Json::Str(code)), ("message"@, Json::Str(message))],
        ),
    }
}

fn two(k1: &str, v1: Wire, k2: &str, v2: Wire) -> (w: Wire)
    ensures
        json(w) == Json::Object(seq![(k1@, json(v1)), (k2@, json(v2))]),
{
    let ghost (j1, j2) = (json(v1), json(v2));
    let mut f: Vec<(String, Wire)> = Vec::new();
    obj_push(&mut f, k1, v1);
    obj_push(&mut f, k2, v2);
    assert(entries(f@) =~= seq![(k1@, j1), (k2@, j2)]);
    obj(f)
}

fn three(k1: &str, v1: Wire, k2: &str, v2: Wire, k3: &str, v3: Wire) -> (w: Wire)
    ensures
        json(w) == Json::Object(seq![(k1@, json(v1)), (k2@, json(v2)), (k3@, json(v3))]),
{
    let ghost (j1, j2, j3) = (json(v1), json(v2), json(v3));
    let mut f: Vec<(String, Wire)> = Vec::new();
    obj_push(&mut f, k1, v1);
    obj_push(&mut f, k2, v2);
    obj_push(&mut f, k3, v3);
    assert(entries(f@) =~= seq![(k1@, j1), (k2@, j2), (k3@, j3)]);
    obj(f)
}

fn span_wire(span: Option<(usize, usize)>) -> (w: Wire)
    ensures
        json(w) == span_json(span),
{
    match span {
        Some(s) => {
            let mut v: Vec<Wire> = Vec::new();
            arr_push(&mut v, Wire::UInt(s.0 as u64));
            arr_push(&mut v, Wire::UInt(s.1 as u64));
            assert(jsons(v@) =~= seq![Json::UInt(s.0 as u64), Json::UInt(s.1 as u64)]);
            arr(v)
        },
        None => Wire::Null,
    }
}

/// Project one event into its AG-UI payload; every event has one.
pub fn to_agui_event(ev: &AgentEvent) -> (r: Option<Wire>)
    ensures
        r matches Some(w) && json(w) == agui_json(event_view(*ev)),
{
    let w = match ev {
        AgentEvent::RunStarted { run_id, session_id } => three(
            "type",
            jstr("RUN_STARTED"),
            "runId",
            juuid(*run_id),
            "threadId",
            juuid(*session_id),
        ),
        AgentEvent::TextMessageStart { message_id, role } => three(
            "type",
            jstr("TEXT_MESSAGE_START"),
            "messageId",
            juuid(*message_id),
            "role",
            jstr(role_str(*role)),
        ),
        AgentEvent::TextMessageDelta { message_id, delta } => three(
            "type",
            jstr("TEXT_MESSAGE_CONTENT"),
            "messageId",
            juuid(*message_id),
            "delta",
            jstring(delta.clone()),
        ),
        AgentEvent::TextMessageEnd { message_id } => two(
            "type",
            jstr("TEXT_MESSAGE_END"),
            "messageId",
            juuid(*message_id),
        ),
        AgentEvent::ToolCallStart { tool_call_id, name } => three(
            "type",
            jstr("TOOL_CALL_START"),
            "toolCallId",
            juuid(*tool_call_id),
            "toolCallName",
            jstring(name.clone()),
        ),
        AgentEvent::ToolCallArgsDelta { tool_call_id, delta } => three(
            "type",
            jstr("TOOL_CALL_ARGS"),
            "toolCallId",
            juuid(*tool_call_id),
            "delta",
            jstring(delta.clone()),
        ),
        AgentEvent::ToolCallEnd { tool_call_id } => two(
            "type",
            jstr("TOOL_CALL_END"),
            "toolCallId",
            juuid(*tool_call_id),
        ),
        AgentEvent::ToolResult { tool_call_id, content } => three(
            "type",
            jstr("TOOL_CALL_RESULT"),
            "toolCallId",
            juuid(*tool_call_id),
            "content",
            content.duplicate(),
        ),
        AgentEvent::StateSnapshot { state } => two("type", jstr("STATE_SNAPSHOT"), "snapshot", state.duplicate()),
        AgentEvent::Citation { ref_, score_bits, span } => {
            let mut f: Vec<(String, Wire)> = Vec::new();
            obj_push(&mut f, "type", jstr("x-jesus-twin/citation"));
            obj_push(&mut f, "ref", jstring(ref_.clone()));
            obj_push(&mut f, "score", Wire::F32(*score_bits));
            obj_push(&mut f, "span", span_wire(*span));
            assert(entries(f@) =~= seq![
                ("type"@, Json::Str("x-jesus-twin/citation"@)),
                ("ref"@, Json::Str(ref_@)),
                ("score"@, Json::F32(*score_bits)),
                ("span"@, span_json(*span)),
            ]);
            obj(f)
        },
        AgentEvent::Refusal { reason } => two(
            "type",
            jstr("x-jesus-twin/refusal"),
            "reason",
            jstr(reason_str(*reason)),
        ),
        AgentEvent::Custom { name, data } => two("type", jstring(name.clone()), "data", data.duplicate()),
        AgentEvent::RunFinished { run_id, finish } => three(
            "type",
            jstr("RUN_FINISHED"),
            "runId",
            juuid(*run_id),
            "finish",
            jstr(finish_str(*finish)),
        ),
        AgentEvent::Error { code, message } => three(
            "type",
            jstr("RUN_ERROR"),
            "code",
            jstring(code.clone()),
            "message",
            jstring(message.clone()),
        ),
    };
    Some(w)
}

} // verus!
