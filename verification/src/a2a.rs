//! The A2A projection: JSON-RPC 2.0 envelopes, the completed task a `message/send` answers
//! with, the agent card, and reading the messages of a request. The task store and the turn
//! itself run in the application; what goes on the wire is built here.
use vstd::prelude::*;
use crate::event::{AgentEvent, EventView, event_view, event_views};
use crate::openai::citation_json;
use crate::session::WireMessage;
use crate::text::str_eq;
use crate::wire::{Json, Wire, arr, arr_push, entries, field, json, jsons, jstr, jstring, obj, obj_push};

verus! {

/// The answer text a refusal contributes.
pub const REFUSED_TEXT: &'static str = "The recorded teachings of Jesus don't address that.";

/// JSON-RPC: the method does not exist.
pub const METHOD_NOT_FOUND: i32 = -32601;

/// JSON-RPC: invalid method parameters.
pub const INVALID_PARAMS: i32 = -32602;

/// The turn failed on the agent's side.
pub const RUN_FAILED: i32 = -32000;

/// No task under the requested id.
pub const TASK_NOT_FOUND: i32 = -32001;

/// The answer an event stream carries: its text, its citations as `(ref, score bits)`, and
/// whether the turn was refused.
pub struct Answer {
    pub text: Seq<char>,
    pub citations: Seq<(Seq<char>, u32)>,
    pub refused: bool,
}

pub open spec fn answer_step(a: Answer, e: EventView) -> Answer {
    match e {
        EventView::TextMessageDelta { delta, .. } => Answer {
            text: a.text + delta,
            citations: a.citations,
            refused: a.refused,
        },
        EventView::Refusal { .. } => Answer {
            text: a.text + REFUSED_TEXT@,
            citations: a.citations,
            refused: true,
        },
        EventView::Citation { ref_, score_bits, .. } => Answer {
            text: a.text,
            citations: a.citations.push((ref_, score_bits)),
            refused: a.refused,
        },
        _ => a,
    }
}

pub open spec fn fold_answer(evs: Seq<EventView>) -> Answer
    decreases evs.len(),
{
    if evs.len() == 0 {
        Answer { text: Seq::empty(), citations: Seq::empty(), refused: false }
    } else {
        answer_step(fold_answer(evs.drop_last()), evs.last())
    }
}

pub open spec fn citations_json(cs: Seq<(Seq<char>, u32)>) -> Seq<Json> {
    cs.map_values(|c: (Seq<char>, u32)| citation_json(c))
}

/// Collapse the events into the answer text, its citation objects, and whether it was refused.
pub fn project_answer(events: &[AgentEvent]) -> (r: (String, Vec<Wire>, bool))
    ensures
        r.0@ == fold_answer(event_views(events@)).text,
        jsons(r.1@) == citations_json(fold_answer(event_views(events@)).citations),
        r.2 == fold_answer(event_views(events@)).refused,
{
    let ghost evs = event_views(events@);
    let mut text = String::new();
    let mut cites: Vec<Wire> = Vec::new();
    let mut refused = false;
    let mut i: usize = 0;
    while i < events.len()
        invariant
            0 <= i <= events@.len(),
            evs == event_views(events@),
            text@ == fold_answer(evs.take(i as int)).text,
            jsons(cites@) == citations_json(fold_answer(evs.take(i as int)).citations),
            refused == fold_answer(evs.take(i as int)).refused,
        decreases events.len() - i,
    {
        let ghost a0 = fold_answer(evs.take(i as int));
        proof {
            assert(evs.take(i + 1).drop_last() =~= evs.take(i as int));
            assert(evs.take(i + 1).last() == event_view(events@[i as int]));
        }
        match &events[i] {
            AgentEvent::TextMessageDelta { delta, .. } => {
                text.append(delta.as_str());
            },
            AgentEvent::Refusal { .. } => {
                refused = true;
                text.append(REFUSED_TEXT);
            },
            AgentEvent::Citation { ref_, score_bits, .. } => {
                let mut f: Vec<(String, Wire)> = Vec::new();
                obj_push(&mut f, "ref", jstring(ref_.clone()));
                obj_push(&mut f, "score", Wire::F32(*score_bits));
                assert(entries(f@) =~= seq![("ref"@, Json::Str(ref_@)), ("score"@, Json::F32(*score_bits))]);
                arr_push(&mut cites, obj(f));
                proof {
                    assert(citations_json(fold_answer(evs.take(i + 1)).citations) =~= citations_json(
                        a0.citations,
                    ).push(citation_json((ref_@, *score_bits))));
                }
            },
            _ => {},
        }
        i = i + 1;
    }
    proof {
        assert(evs.take(events@.len() as int) =~= evs);
    }
    (text, cites, refused)
}

/// A completed A2A task: the assistant message and the citations as artifacts, and whether
/// the turn was refused.
pub open spec fn task_json(id: Seq<char>, a: Answer) -> Json {
    Json::Object(
        seq![
            ("id"@, Json::Str(id)),
            ("status"@, Json::Object(seq![("state"@, Json::Str("completed"@))])),
            (
                "artifacts"@,
                Json::Array(
                    seq![
                        Json::Object(
                            seq![
                                ("type"@, Json::Str("message"@)),
                                ("role"@, Json::Str("assistant"@)),
                                ("content"@, Json::Str(a.text)),
                            ],
                        ),
                        Json::Object(
                            seq![
                                ("type"@, Json::Str("x-jesus-twin/citations"@)),
                                ("citations"@, Json::Array(citations_json(a.citations))),
                            ],
                        ),
                    ],
                ),
            ),
            ("metadata"@, Json::Object(seq![("refused"@, Json::Bool(a.refused))])),
        ],
    )
}

/// Project the event stream into the completed task `id`.
pub fn build_task(id: &str, events: &[AgentEvent]) -> (w: Wire)
    ensures
        json(w) == task_json(id@, fold_answer(event_views(events@))),
{
    let ghost a = fold_answer(event_views(events@));
    let (text, cites, refused) = project_answer(events);
    let mut status: Vec<(String, Wire)> = Vec::new();
    obj_push(&mut status, "state", jstr("completed"));
    let mut message: Vec<(String, Wire)> = Vec::new();
    obj_push(&mut message, "type", jstr("message"));
    obj_push(&mut message, "role", jstr("assistant"));
    obj_push(&mut message, "content", jstring(text));
    let mut citations: Vec<(String, Wire)> = Vec::new();
    obj_push(&mut citations, "type", jstr("x-jesus-twin/citations"));
    obj_push(&mut citations, "citations", arr(cites));
    let mut artifacts: Vec<Wire> = Vec::new();
    arr_push(&mut artifacts, obj(message));
    arr_push(&mut artifacts, obj(citations));
    let mut meta: Vec<(String, Wire)> = Vec::new();
    obj_push(&mut meta, "refused", Wire::Bool(refused));
    let mut top: Vec<(String, Wire)> = Vec::new();
    obj_push(&mut top, "id", jstr(id));
    obj_push(&mut top, "status", obj(status));
    obj_push(&mut top, "artifacts", arr(artifacts));
    obj_push(&mut top, "metadata", obj(meta));
    proof {
        assert(entries(status@) =~= seq![("state"@, Json::Str("completed"@))]);
        assert(entries(message@) =~= seq![
            ("type"@, Json::Str("message"@)),
            ("role"@, Json::Str("assistant"@)),
            ("content"@, Json::Str(a.text)),
        ]);
        assert(entries(citations@) =~= seq![
            ("type"@, Json::Str("x-jesus-twin/citations"@)),
            ("citations"@, Json::Array(citations_json(a.citations))),
        ]);
        assert(jsons(artifacts@) =~= seq![Json::Object(entries(message@)), Json::Object(entries(citations@))]);
        assert(entries(meta@) =~= seq![("refused"@, Json::Bool(a.refused))]);
        assert(entries(top@) =~= seq![
            ("id"@, Json::Str(id@)),
            ("status"@, Json::Object(entries(status@))),
            ("artifacts"@, Json::Array(jsons(artifacts@))),
            ("metadata"@, Json::Object(entries(meta@))),
        ]);
    }
    obj(top)
}

/// A JSON-RPC error object.
pub open spec fn rpc_error_json(code: i32, message: Seq<char>) -> Json {
    Json::Object(seq![("code"@, Json::Int(code as i64)), ("message"@, Json::Str(message))])
}

/// Build a JSON-RPC error object.
pub fn rpc_error(code: i32, message: &str) -> (w: Wire)
    ensures
        json(w) == rpc_error_json(code, message@),
{
    let mut f: Vec<(String, Wire)> = Vec::new();
    obj_push(&mut f, "code", Wire::Int(code as i64));
    obj_push(&mut f, "message", jstr(message));
    assert(entries(f@) =~= seq![("code"@, Json::Int(code as i64)), ("message"@, Json::Str(message@))]);
    obj(f)
}

/// The JSON-RPC methods served.
#[derive(Debug, Clone, Copy, PartialEq, Eq, Structural)]
pub enum RpcMethod {
    MessageSend,
    TasksGet,
}

/// Route a JSON-RPC method name; an unknown one gets the standard method-not-found error.
pub fn rpc_dispatch(method: &str) -> (r: Result<RpcMethod, Wire>)
    ensures
        method@ == "message/send"@ ==> r == Ok::<RpcMethod, Wire>(RpcMethod::MessageSend),
        method@ == "tasks/get"@ ==> r == Ok::<RpcMethod, Wire>(RpcMethod::TasksGet),
        method@ != "message/send"@ && method@ != "tasks/get"@ ==> (r matches Err(e) && json(e)
            == rpc_error_json(METHOD_NOT_FOUND, "method not found"@)),
{
    proof {
        reveal_strlit("message/send");
        reveal_strlit("tasks/get");
        assert("message/send"@.len() != "tasks/get"@.len());
    }
    if str_eq(method, "message/send") {
        Ok(RpcMethod::MessageSend)
    } else if str_eq(method, "tasks/get") {
        Ok(RpcMethod::TasksGet)
    } else {
        Err(rpc_error(METHOD_NOT_FOUND, "method not found"))
    }
}

/// The JSON-RPC response envelope: the result, or the error, under the request's id.
pub open spec fn rpc_reply_json(id: Json, result: Result<Json, Json>) -> Json {
    match result {
        Ok(v) => Json::Object(seq![("jsonrpc"@, Json::Str("2.0"@)), ("id"@, id), ("result"@, v)]),
        Err(e) => Json::Object(seq![("jsonrpc"@, Json::Str("2.0"@)), ("id"@, id), ("error"@, e)]),
    }
}

/// Wrap a method's outcome in the JSON-RPC envelope.
pub fn rpc_reply(id: Wire, result: Result<Wire, Wire>) -> (w: Wire)
    ensures
        json(w) == rpc_reply_json(
            json(id),
            match result {
                Ok(v) => Ok(json(v)),
                Err(e) => Err(json(e)),
            },
        ),
{
    let ghost ij = json(id);
    let mut f: Vec<(String, Wire)> = Vec::new();
    obj_push(&mut f, "jsonrpc", jstr("2.0"));
    obj_push(&mut f, "id", id);
    match result {
        Ok(v) => {
            let ghost vj = json(v);
            obj_push(&mut f, "result", v);
            assert(entries(f@) =~= seq![("jsonrpc"@, Json::Str("2.0"@)), ("id"@, ij), ("result"@, vj)]);
        },
        Err(e) => {
            let ghost ej = json(e);
            obj_push(&mut f, "error", e);
            assert(entries(f@) =~= seq![("jsonrpc"@, Json::Str("2.0"@)), ("id"@, ij), ("error"@, ej)]);
        },
    }
    obj(f)
}

/// The task id a `tasks/get` asks for, or the invalid-params error when it is missing.
pub fn task_id_param(params: &Wire) -> (r: Result<String, Wire>)
    ensures
        match field(json(*params), "id"@) {
            Some(Json::Str(s)) => r matches Ok(v) && v@ == s,
            _ => r matches Err(e) && json(e) == rpc_error_json(INVALID_PARAMS, "missing id"@),
        },
{
    match params.get("id") {
        Some(v) => match v.as_str() {
            Some(s) => Ok(s.clone()),
            None => Err(rpc_error(INVALID_PARAMS, "missing id")),
        },
        None => Err(rpc_error(INVALID_PARAMS, "missing id")),
    }
}

/// The concatenated `text` of the parts that have one.
pub open spec fn parts_text(parts: Seq<Json>) -> Seq<char>
    decreases parts.len(),
{
    if parts.len() == 0 {
        Seq::empty()
    } else {
        parts_text(parts.drop_last()) + match field(parts.last(), "text"@) {
            Some(Json::Str(t)) => t,
            _ => Seq::empty(),
        }
    }
}

/// The role of a message value: its `role` string, else `user`.
pub open spec fn message_role(v: Json) -> Seq<char> {
    match field(v, "role"@) {
        Some(Json::Str(s)) => s,
        _ => "user"@,
    }
}

/// The content of a message value: its `parts`' texts when it has a `parts` array, else its
/// `content` string, else nothing.
pub open spec fn message_content(v: Json) -> Seq<char> {
    match field(v, "parts"@) {
        Some(Json::Array(ps)) => parts_text(ps),
        _ => match field(v, "content"@) {
            Some(Json::Str(c)) => c,
            _ => Seq::empty(),
        },
    }
}

/// Read one message value: A2A `parts`, or a plain `content` string.
pub fn value_to_message(v: &Wire) -> (r: Option<WireMessage>)
    ensures
        r matches Some(m) && m.role@ == message_role(json(*v)) && m.content@ == message_content(
            json(*v),
        ),
{
    let role = match v.get("role") {
        Some(r) => match r.as_str() {
            Some(s) => s.clone(),
            None => String::from_str("user"),
        },
        None => String::from_str("user"),
    };
    let parts = match v.get("parts") {
        Some(p) => p.as_array(),
        None => None,
    };
    let content = match parts {
        Some(ps) => {
            let ghost pj = jsons(ps@);
            let mut text = String::new();
            let mut i: usize = 0;
            while i < ps.len()
                invariant
                    0 <= i <= ps@.len(),
                    pj == jsons(ps@),
                    text@ == parts_text(pj.take(i as int)),
                decreases ps.len() - i,
            {
                proof {
                    assert(pj.take(i + 1).drop_last() =~= pj.take(i as int));
                    assert(pj.take(i + 1).last() == json(ps@[i as int]));
                }
                match ps[i].get("text") {
                    Some(t) => match t.as_str() {
                        Some(s) => {
                            text.append(s.as_str());
                        },
                        None => {},
                    },
                    None => {},
                }
                i = i + 1;
            }
            proof {
                assert(pj.take(ps@.len() as int) =~= pj);
            }
            text
        },
        None => match v.get("content") {
            Some(c) => match c.as_str() {
                Some(s) => s.clone(),
                None => String::new(),
            },
            None => String::new(),
        },
    };
    Some(WireMessage { role, content })
}

/// The messages of a request: a `messages` array, or a single `message`.
pub open spec fn request_messages(params: Json) -> Seq<(Seq<char>, Seq<char>)> {
    match field(params, "messages"@) {
        Some(Json::Array(vs)) => vs.map_values(|v: Json| (message_role(v), message_content(v))),
        _ => match field(params, "message"@) {
            Some(v) => seq![(message_role(v), message_content(v))],
            None => Seq::empty(),
        },
    }
}

pub open spec fn message_views(ms: Seq<WireMessage>) -> Seq<(Seq<char>, Seq<char>)> {
    ms.map_values(|m: WireMessage| (m.role@, m.content@))
}

/// Accept either `{ messages: [...] }` or `{ message: {...} }`.
pub fn extract_messages(params: &Wire) -> (r: Vec<WireMessage>)
    ensures
        message_views(r@) == request_messages(json(*params)),
{
    let arr_opt = match params.get("messages") {
        Some(m) => m.as_array(),
        None => None,
    };
    match arr_opt {
        Some(vs) => {
            let ghost vj = jsons(vs@);
            let mut r: Vec<WireMessage> = Vec::new();
            let mut i: usize = 0;
            while i < vs.len()
                invariant
                    0 <= i <= vs@.len(),
                    vj == jsons(vs@),
                    message_views(r@) == vj.take(i as int).map_values(
                        |v: Json| (message_role(v), message_content(v)),
                    ),
                decreases vs.len() - i,
            {
                match value_to_message(&vs[i]) {
                    Some(m) => {
                        let ghost before = message_views(r@);
                        r.push(m);
                        proof {
                            assert(message_views(r@) =~= before.push((m.role@, m.content@)));
                            assert(vj.take(i + 1).map_values(|v: Json| (message_role(v), message_content(v)))
                                =~= vj.take(i as int).map_values(
                                |v: Json| (message_role(v), message_content(v)),
                            ).push((message_role(vj[i as int]), message_content(vj[i as int]))));
                        }
                    },
                    None => {},
                }
                i = i + 1;
            }
            proof {
                assert(vj.take(vs@.len() as int) =~= vj);
            }
            r
        },
        None => {
            let mut r: Vec<WireMessage> = Vec::new();
            match params.get("message") {
                Some(v) => {
                    match value_to_message(v) {
                        Some(m) => {
                            r.push(m);
                        },
                        None => {},
                    }
                },
                None => {},
            }
            assert(message_views(r@) =~= request_messages(json(*params)));
            r
        },
    }
}

pub const AGENT_DESCRIPTION: &'static str = "A study aid that renders the recorded teachings of Jesus of Nazareth in present-day English, grounded in cited verses; refuses out-of-corpus questions.";

pub const ASK_SKILL_DESCRIPTION: &'static str = "Answer a question grounded in the red-letter corpus, with citations.";

/// The agent card served for A2A discovery.
pub open spec fn agent_card_json() -> Json {
    Json::Object(
        seq![
            ("name"@, Json::Str("jesus-twin"@)),
            ("description"@, Json::Str(AGENT_DESCRIPTION@)),
            ("version"@, Json::Str("0.1.0"@)),
            ("protocolVersion"@, Json::Str("1.0"@)),
            (
                "capabilities"@,
                Json::Object(seq![("streaming"@, Json::Bool(false)), ("pushNotifications"@, Json::Bool(false))]),
            ),
            (
                "skills"@,
                Json::Array(
                    seq![
                        Json::Object(
                            seq![
                                ("id"@, Json::Str("ask"@)),
                                ("name"@, Json::Str("Ask the twin"@)),
                                ("description"@, Json::Str(ASK_SKILL_DESCRIPTION@)),
                            ],
                        ),
                    ],
                ),
            ),
            ("url"@, Json::Str("/a2a"@)),
        ],
    )
}

/// The agent card.
pub fn agent_card() -> (w: Wire)
    ensures
        json(w) == agent_card_json(),
{
    let mut caps: Vec<(String, Wire)> = Vec::new();
    obj_push(&mut caps, "streaming", Wire::Bool(false));
    obj_push(&mut caps, "pushNotifications", Wire::Bool(false));
    let mut skill: Vec<(String, Wire)> = Vec::new();
    obj_push(&mut skill, "id", jstr("ask"));
    obj_push(&mut skill, "name", jstr("Ask the twin"));
    obj_push(&mut skill, "description", jstr(ASK_SKILL_DESCRIPTION));
    let mut skills: Vec<Wire> = Vec::new();
    arr_push(&mut skills, obj(skill));
    let mut top: Vec<(String, Wire)> = Vec::new();
    obj_push(&mut top, "name", jstr("jesus-twin"));
    obj_push(&mut top, "description", jstr(AGENT_DESCRIPTION));
    obj_push(&mut top, "version", jstr("0.1.0"));
    obj_push(&mut top, "protocolVersion", jstr("1.0"));
    obj_push(&mut top, "capabilities", obj(caps));
    obj_push(&mut top, "skills", arr(skills));
    obj_push(&mut top, "url", jstr("/a2a"));
    proof {
        assert(entries(caps@) =~= seq![("streaming"@, Json::Bool(false)), ("pushNotifications"@, Json::Bool(false))]);
        assert(entries(skill@) =~= seq![
            ("id"@, Json::Str("ask"@)),
            ("name"@, Json::Str("Ask the twin"@)),
            ("description"@, Json::Str(ASK_SKILL_DESCRIPTION@)),
        ]);
        assert(jsons(skills@) =~= seq![Json::Object(entries(skill@))]);
        assert(entries(top@) =~= seq![
            ("name"@, Json::Str("jesus-twin"@)),
            ("description"@, Json::Str(AGENT_DESCRIPTION@)),
            ("version"@, Json::Str("0.1.0"@)),
            ("protocolVersion"@, Json::Str("1.0"@)),
            ("capabilities"@, Json::Object(entries(caps@))),
            ("skills"@, Json::Array(jsons(skills@))),
            ("url"@, Json::Str("/a2a"@)),
        ]);
    }
    obj(top)
}

} // verus!
