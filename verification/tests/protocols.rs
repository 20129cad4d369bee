use serde_json::Value;
use jesus_twin::a2a::{
    agent_card, build_task, extract_messages, rpc_dispatch, rpc_error, rpc_reply, task_id_param,
    value_to_message, RpcMethod,
};
use jesus_twin::agui::to_agui_event;
use jesus_twin::event::{AgentEvent, FinishReason, RefusalReason, Role};
use jesus_twin::mcp::{ask_session, listing, project, AskArgs};
use jesus_twin::openai::{
    finish_reason_str, project_non_stream, refusal_text, stream_response, StreamFrame,
};
use jesus_twin::wire::Wire;

fn to_json(w: &Wire) -> serde_json::Value {
    match w {
        Wire::Null => Value::Null,
        Wire::Bool(b) => Value::Bool(*b),
        Wire::Str(s) => Value::String(s.clone()),
        Wire::Int(i) => Value::from(*i),
        Wire::UInt(u) => Value::from(*u),
        Wire::F32(b) => Value::from(f32::from_bits(*b)),
        Wire::Number(s) => serde_json::from_str(s).unwrap_or(Value::Null),
        Wire::Array(v) => Value::Array(v.iter().map(to_json).collect()),
        Wire::Object(es) => {
            let mut m = serde_json::Map::new();
            for (k, v) in es {
                m.insert(k.clone(), to_json(v));
            }
            Value::Object(m)
        }
    }
}

fn from_json(v: &serde_json::Value) -> Wire {
    match v {
        Value::Null => Wire::Null,
        Value::Bool(b) => Wire::Bool(*b),
        Value::String(s) => Wire::Str(s.clone()),
        Value::Number(n) => Wire::Number(n.to_string()),
        Value::Array(a) => Wire::Array(a.iter().map(from_json).collect()),
        Value::Object(m) => Wire::Object(m.iter().map(|(k, v)| (k.clone(), from_json(v))).collect()),
    }
}

fn parse(s: &str) -> Wire {
    from_json(&serde_json::from_str(s).unwrap())
}

fn covered_events() -> Vec<AgentEvent> {
    vec![
        AgentEvent::RunStarted { run_id: 1, session_id: 2 },
        AgentEvent::Citation { ref_: "Mark 12:17".into(), score_bits: 0.5f32.to_bits(), span: None },
        AgentEvent::TextMessageStart { message_id: 3, role: Role::Assistant },
        AgentEvent::TextMessageDelta { message_id: 3, delta: "Give Caesar his coin.".into() },
        AgentEvent::TextMessageEnd { message_id: 3 },
        AgentEvent::RunFinished { run_id: 1, finish: FinishReason::Stop },
    ]
}

fn refused_events() -> Vec<AgentEvent> {
    vec![
        AgentEvent::RunStarted { run_id: 1, session_id: 2 },
        AgentEvent::Refusal { reason: RefusalReason::NoCoverage },
        AgentEvent::RunFinished { run_id: 1, finish: FinishReason::Refusal },
    ]
}

#[test]
fn non_stream_chat_returns_content_and_citations() {
    let v = to_json(&project_non_stream(&covered_events(), 0x1234));
    assert_eq!(v["object"], "chat.completion");
    assert_eq!(v["model"], "jesus-twin");
    assert_eq!(v["id"], "chatcmpl-00000000-0000-0000-0000-000000001234");
    let content = v["choices"][0]["message"]["content"].as_str().unwrap();
    assert_eq!(content, "Give Caesar his coin.\n\nSources: Mark 12:17");
    assert_eq!(v["choices"][0]["message"]["role"], "assistant");
    assert_eq!(v["choices"][0]["finish_reason"], "stop");
    assert_eq!(v["metadata"]["citations"][0]["ref"], "Mark 12:17");
    assert_eq!(v["metadata"]["citations"][0]["score"], serde_json::Value::from(0.5f32));
}

#[test]
fn non_stream_refusal_uses_content_filter_finish() {
    let v = to_json(&project_non_stream(&refused_events(), 1));
    assert_eq!(v["choices"][0]["finish_reason"], "content_filter");
    assert!(v["choices"][0]["message"]["content"].as_str().unwrap().contains("don't address that"));
    assert!(v["metadata"]["citations"].as_array().unwrap().is_empty());
}

#[test]
fn stream_chat_emits_chunks_in_order() {
    let frames = stream_response(&covered_events(), 9);
    assert_eq!(frames.len(), 4);
    assert!(matches!(frames[3], StreamFrame::Done));
    let chunks: Vec<serde_json::Value> = frames[..3]
        .iter()
        .map(|f| match f {
            StreamFrame::Chunk(w) => to_json(w),
            StreamFrame::Done => panic!("sentinel before the last frame"),
        })
        .collect();
    assert_eq!(chunks.len(), 3);
    assert!(chunks.iter().all(|c| c["object"] == "chat.completion.chunk"));
    assert_eq!(chunks[0]["choices"][0]["delta"]["x-jesus-twin-citation"]["ref"], "Mark 12:17");
    assert_eq!(chunks[1]["choices"][0]["delta"]["content"], "Give Caesar his coin.");
    assert!(chunks[1]["choices"][0]["finish_reason"].is_null());
    assert_eq!(chunks[2]["choices"][0]["finish_reason"], "stop");
    assert!(chunks[2]["choices"][0]["delta"].as_object().unwrap().is_empty());
}

#[test]
fn finish_reasons_and_refusal_texts() {
    assert_eq!(finish_reason_str(FinishReason::Stop), "stop");
    assert_eq!(finish_reason_str(FinishReason::Length), "length");
    assert_eq!(finish_reason_str(FinishReason::ToolCalls), "tool_calls");
    assert_eq!(finish_reason_str(FinishReason::Refusal), "content_filter");
    assert_eq!(finish_reason_str(FinishReason::Error), "stop");
    assert!(refusal_text(&RefusalReason::NoCoverage).contains("don't address that"));
    assert!(refusal_text(&RefusalReason::OutOfScope).contains("later generations"));
    assert!(refusal_text(&RefusalReason::InsufficientAttestation).contains("closest thread"));
}

#[test]
fn agui_streams_standard_and_custom_events() {
    let frames: Vec<serde_json::Value> =
        covered_events().iter().map(|e| to_json(&to_agui_event(e).unwrap())).collect();
    assert_eq!(frames[0]["type"], "RUN_STARTED");
    assert_eq!(frames[0]["runId"], "00000000-0000-0000-0000-000000000001");
    assert_eq!(frames[1]["type"], "x-jesus-twin/citation");
    assert!(frames[1]["span"].is_null());
    assert_eq!(frames[2]["role"], "assistant");
    assert_eq!(frames[3]["type"], "TEXT_MESSAGE_CONTENT");
    assert_eq!(frames[3]["delta"], "Give Caesar his coin.");
    assert_eq!(frames[5]["type"], "RUN_FINISHED");
    assert_eq!(frames[5]["finish"], "stop");
}

#[test]
fn agui_refusal_emits_namespaced_chunk() {
    let frames: Vec<serde_json::Value> =
        refused_events().iter().map(|e| to_json(&to_agui_event(e).unwrap())).collect();
    assert_eq!(frames[1]["type"], "x-jesus-twin/refusal");
    assert_eq!(frames[1]["reason"], "no_coverage");
    assert_eq!(frames[2]["finish"], "refusal");
    let span = AgentEvent::Citation { ref_: "x".into(), score_bits: 0, span: Some((2, 5)) };
    assert_eq!(to_json(&to_agui_event(&span).unwrap())["span"], serde_json::from_str::<serde_json::Value>("[2,5]").unwrap());
}

#[test]
fn message_send_returns_completed_task_with_artifacts() {
    let v = to_json(&build_task("task-1", &covered_events()));
    assert_eq!(v["id"], "task-1");
    assert_eq!(v["status"]["state"], "completed");
    assert_eq!(v["artifacts"][0]["content"], "Give Caesar his coin.");
    assert_eq!(v["artifacts"][1]["type"], "x-jesus-twin/citations");
    assert_eq!(v["artifacts"][1]["citations"][0]["ref"], "Mark 12:17");
    assert_eq!(v["metadata"]["refused"], false);
    let r = to_json(&build_task("task-2", &refused_events()));
    assert_eq!(r["metadata"]["refused"], true);
    assert_eq!(r["artifacts"][0]["content"], "The recorded teachings of Jesus don't address that.");
}

#[test]
fn unknown_method_returns_method_not_found() {
    assert!(matches!(rpc_dispatch("message/send"), Ok(RpcMethod::MessageSend)));
    assert!(matches!(rpc_dispatch("tasks/get"), Ok(RpcMethod::TasksGet)));
    let err = rpc_dispatch("tasks/cancel").err().unwrap();
    assert_eq!(to_json(&err)["code"], -32601);
    let reply = to_json(&rpc_reply(Wire::UInt(4), Err(err)));
    assert_eq!(reply["jsonrpc"], "2.0");
    assert_eq!(reply["id"], 4);
    assert_eq!(reply["error"]["message"], "method not found");
    let ok = to_json(&rpc_reply(Wire::Null, Ok(Wire::Bool(true))));
    assert_eq!(ok["result"], true);
}

#[test]
fn agent_card_is_served() {
    let v = to_json(&agent_card());
    assert_eq!(v["name"], "jesus-twin");
    assert_eq!(v["url"], "/a2a");
    assert_eq!(v["skills"][0]["id"], "ask");
    assert_eq!(v["capabilities"]["streaming"], false);
}

#[test]
fn a2a_messages_from_parts_or_content() {
    let single = parse(r#"{"message":{"role":"user","parts":[{"text":"render "},{"kind":"x"},{"text":"to Caesar"}]}}"#);
    let ms = extract_messages(&single);
    assert_eq!(ms.len(), 1);
    assert_eq!(ms[0].role, "user");
    assert_eq!(ms[0].content, "render to Caesar");
    let many = parse(r#"{"messages":[{"content":"hi"},{"role":"assistant","content":"hello"}]}"#);
    let ms = extract_messages(&many);
    assert_eq!(ms.len(), 2);
    assert_eq!(ms[0].role, "user");
    assert_eq!(ms[1].content, "hello");
    assert!(extract_messages(&parse("{}")).is_empty());
    let m = value_to_message(&parse(r#"{"role":"system"}"#)).unwrap();
    assert_eq!(m.role, "system");
    assert_eq!(m.content, "");
}

#[test]
fn tasks_get_reads_the_id() {
    assert_eq!(task_id_param(&parse(r#"{"id":"t-9"}"#)).ok(), Some("t-9".to_string()));
    let err = task_id_param(&parse(r#"{"id":3}"#)).err().unwrap();
    assert_eq!(to_json(&err)["code"], -32602);
    assert_eq!(to_json(&rpc_error(-32001, "task not found"))["message"], "task not found");
}

#[test]
fn mcp_ask_projects_answer_and_citations() {
    let s = ask_session(&AskArgs { question: "render to Caesar".into() }, 5);
    assert_eq!(s.id, 5);
    assert_eq!(s.turns.len(), 1);
    assert_eq!(s.turns[0].content, "render to Caesar");
    let (text, cites) = project(&covered_events());
    assert_eq!(text, "Give Caesar his coin.");
    let block = to_json(&listing("citations", cites));
    assert_eq!(block["citations"][0]["ref"], "Mark 12:17");
    let (refused, none) = project(&refused_events());
    assert_eq!(refused, "The recorded teachings of Jesus don't address that.");
    assert!(none.is_empty());
}

fn sse_body(frames: &[StreamFrame]) -> String {
    let mut body = String::new();
    for f in frames {
        match f {
            StreamFrame::Chunk(w) => body.push_str(&format!("data: {}\n\n", to_json(w))),
            StreamFrame::Done => body.push_str("data: [DONE]\n\n"),
        }
    }
    body
}

#[test]
fn stream_chat_emits_chunks_and_done() {
    let body = sse_body(&stream_response(&covered_events(), 7));
    assert!(body.contains("chat.completion.chunk"), "expected chunk objects");
    assert!(body.contains("Give Caesar his coin."), "expected the delta content");
    assert!(body.contains("\"finish_reason\":\"stop\""), "expected a finish chunk");
    assert!(body.trim_end().ends_with("[DONE]"), "stream must terminate with [DONE]");
}
