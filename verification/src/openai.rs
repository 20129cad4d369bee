//! The OpenAI chat-completions projection of the event stream: one JSON body, or a list of
//! `chat.completion.chunk`s. No agent logic: text deltas become content, a refusal becomes an
//! honest assistant message with `content_filter`, citations are mirrored in the metadata and
//! listed inline, and the run's finish reason becomes `finish_reason`.
use vstd::prelude::*;
use crate::event::{AgentEvent, EventView, FinishReason, RefusalReason, event_view, event_views};
use crate::ids::uuid_text;
use crate::session::WireMessage;
use crate::text::{contains, join, join_offset, join_strings, lemma_join_in_order, lemma_join_occurs, lemma_occurs_within, occurs_at, starts_with};
use crate::wire::{Json, Wire, arr, arr_push, entries, json, jsons, jstr, jstring, obj, obj_push};
use crate::ids::uuid_string;

verus! {

/// The model name every response reports.
pub const MODEL_NAME: &'static str = "jesus-twin";

/// A chat-completions request: the conversation and whether to stream.
#[derive(Debug)]
pub struct ChatRequest {
    pub model: Option<String>,
    pub messages: Vec<WireMessage>,
    pub stream: bool,
}

/// The OpenAI `finish_reason` of a run's finish.
pub open spec fn finish_text(f: FinishReason) -> Seq<char> {
    match f {
        FinishReason::Stop => "stop"@,
        FinishReason::Length => "length"@,
        FinishReason::ToolCalls => "tool_calls"@,
        FinishReason::Refusal => "content_filter"@,
        FinishReason::Error => "stop"@,
    }
}

/// Map a finish reason to OpenAI's `finish_reason`; a refusal is `content_filter`.
pub fn finish_reason_str(f: FinishReason) -> (s: &'static str)
    ensures
        s@ == finish_text(f),
{
    match f {
        FinishReason::Stop => "stop",
        FinishReason::Length => "length",
        FinishReason::ToolCalls => "tool_calls",
        FinishReason::Refusal => "content_filter",
        FinishReason::Error => "stop",
    }
}

pub const NO_COVERAGE_TEXT: &'static str = "I can't speak to that from what's recorded: the recorded teachings don't address that. Let me show you what I did say that might help.";

pub const OUT_OF_SCOPE_TEXT: &'static str = "The writings about me from later generations speak to that \u{2014} but the record of my own words and life doesn't go there directly. Here is what I did teach that bears on it.";

pub const INSUFFICIENT_ATTESTATION_TEXT: &'static str = "The record doesn't show me addressing that clearly enough that I can answer in my own voice. Here's the closest thread I do have.";

/// The honest, in-voice refusal message for each refusal reason.
pub open spec fn refusal_message(reason: RefusalReason) -> Seq<char> {
    match reason {
        RefusalReason::NoCoverage => NO_COVERAGE_TEXT@,
        RefusalReason::OutOfScope => OUT_OF_SCOPE_TEXT@,
        RefusalReason::InsufficientAttestation => INSUFFICIENT_ATTESTATION_TEXT@,
    }
}

/// The refusal message shown as the assistant's reply.
pub fn refusal_text(reason: &RefusalReason) -> (s: String)
    ensures
        s@ == refusal_message(*reason),
{
    match reason {
        RefusalReason::NoCoverage => String::from_str(NO_COVERAGE_TEXT),
        RefusalReason::OutOfScope => String::from_str(OUT_OF_SCOPE_TEXT),
        RefusalReason::InsufficientAttestation => String::from_str(INSUFFICIENT_ATTESTATION_TEXT),
    }
}

/// The collapsed reply of an event stream: its text, its finish reason, and its citations
/// as `(ref, score bits)`.
pub struct Reply {
    pub content: Seq<char>,
    pub finish: Seq<char>,
    pub citations: Seq<(Seq<char>, u32)>,
}

/// What one event adds to the reply.
pub open spec fn reply_step(r: Reply, e: EventView) -> Reply {
    match e {
        EventView::TextMessageDelta { delta, .. } => Reply {
            content: r.content + delta,
            finish: r.finish,
            citations: r.citations,
        },
        EventView::Refusal { reason } => Reply {
            content: r.content + refusal_message(reason),
            finish: "content_filter"@,
            citations: r.citations,
        },
        EventView::Citation { ref_, score_bits, .. } => Reply {
            content: r.content,
            finish: r.finish,
            citations: r.citations.push((ref_, score_bits)),
        },
        EventView::RunFinished { finish, .. } => Reply {
            content: r.content,
            finish: finish_text(finish),
            citations: r.citations,
        },
        _ => r,
    }
}

/// The reply of a whole stream, starting from no text, `stop` and no citations.
pub open spec fn fold_reply(evs: Seq<EventView>) -> Reply
    decreases evs.len(),
{
    if evs.len() == 0 {
        Reply { content: Seq::empty(), finish: "stop"@, citations: Seq::empty() }
    } else {
        reply_step(fold_reply(evs.drop_last()), evs.last())
    }
}

/// The message content: the text, then the cited refs inline when there are any, so a
/// plain-text client still sees them.
pub open spec fn reply_content(r: Reply) -> Seq<char> {
    if r.citations.len() > 0 {
        r.content + "\n\nSources: "@ + join(r.citations.map_values(|c: (Seq<char>, u32)| c.0), "; "@)
    } else {
        r.content
    }
}

pub open spec fn citation_json(c: (Seq<char>, u32)) -> Json {
    Json::Object(seq![("ref"@, Json::Str(c.0)), ("score"@, Json::F32(c.1))])
}

/// The response id: `chatcmpl-` and a UUID.
pub open spec fn completion_id(id: u128) -> Seq<char> {
    "chatcmpl-"@ + uuid_text(id)
}

/// The non-streaming `chat.completion` body.
pub open spec fn completion_json(id: u128, r: Reply) -> Json {
    Json::Object(
        seq![
            ("id"@, Json::Str(completion_id(id))),
            ("object"@, Json::Str("chat.completion"@)),
            ("model"@, Json::Str(MODEL_NAME@)),
            (
                "choices"@,
                Json::Array(
                    seq![
                        Json::Object(
                            seq![
                                ("index"@, Json::UInt(0)),
                                (
                                    "message"@,
                                    Json::Object(
                                        seq![
                                            ("role"@, Json::Str("assistant"@)),
                                            ("content"@, Json::Str(reply_content(r))),
                                        ],
                                    ),
                                ),
                                ("finish_reason"@, Json::Str(r.finish)),
                            ],
                        ),
                    ],
                ),
            ),
            (
                "metadata"@,
                Json::Object(
                    seq![("citations"@, Json::Array(r.citations.map_values(|c: (Seq<char>, u32)| citation_json(c))))],
                ),
            ),
        ],
    )
}

fn completion_id_string(id: u128) -> (s: String)
    ensures
        s@ == completion_id(id),
{
    let mut s = String::from_str("chatcmpl-");
    let u = uuid_string(id);
    s.append(u.as_str());
    s
}

fn citation_wire(r: &String, score_bits: u32) -> (w: Wire)
    ensures
        json(w) == citation_json((r@, score_bits)),
{
    let mut f: Vec<(String, Wire)> = Vec::new();
    obj_push(&mut f, "ref", jstring(r.clone()));
    obj_push(&mut f, "score", Wire::F32(score_bits));
    proof {
        assert(entries(f@) =~= seq![("ref"@, Json::Str(r@)), ("score"@, Json::F32(score_bits))]);
    }
    obj(f)
}

/// Collapse the complete event stream into one `chat.completion` body with id
/// `chatcmpl-<id>`.
pub fn project_non_stream(events: &[AgentEvent], id: u128) -> (w: Wire)
    ensures
        json(w) == completion_json(id, fold_reply(event_views(events@))),
{
    let ghost evs = event_views(events@);
    let mut content = String::new();
    let mut finish: &'static str = "stop";
    let mut refs: Vec<String> = Vec::new();
    let mut cites: Vec<Wire> = Vec::new();
    let mut i: usize = 0;
    proof {
        assert(evs.take(0) =~= Seq::<EventView>::empty());
    }
    while i < events.len()
        invariant
            0 <= i <= events@.len(),
            evs == event_views(events@),
            content@ == fold_reply(evs.take(i as int)).content,
            finish@ == fold_reply(evs.take(i as int)).finish,
            crate::prompt::views(refs@) == fold_reply(evs.take(i as int)).citations.map_values(
                |c: (Seq<char>, u32)| c.0,
            ),
            jsons(cites@) == fold_reply(evs.take(i as int)).citations.map_values(
                |c: (Seq<char>, u32)| citation_json(c),
            ),
        decreases events.len() - i,
    {
        let ghost r0 = fold_reply(evs.take(i as int));
        proof {
            assert(evs.take(i + 1).drop_last() =~= evs.take(i as int));
            assert(evs.take(i + 1).last() == event_view(events@[i as int]));
        }
        match &events[i] {
            AgentEvent::TextMessageDelta { delta, .. } => {
                content.append(delta.as_str());
            },
            AgentEvent::Refusal { reason } => {
                let t = refusal_text(reason);
                content.append(t.as_str());
                finish = "content_filter";
            },
            AgentEvent::Citation { ref_, score_bits, .. } => {
                let ghost rb = crate::prompt::views(refs@);
                refs.push(ref_.clone());
                arr_push(&mut cites, citation_wire(ref_, *score_bits));
                proof {
                    assert(crate::prompt::views(refs@) =~= rb.push(ref_@));
                    let r1 = fold_reply(evs.take(i + 1));
                    assert(r1.citations == r0.citations.push((ref_@, *score_bits)));
                    assert(r1.citations.map_values(|c: (Seq<char>, u32)| c.0) =~= r0.citations.map_values(
                        |c: (Seq<char>, u32)| c.0,
                    ).push(ref_@));
                    assert(r1.citations.map_values(|c: (Seq<char>, u32)| citation_json(c))
                        =~= r0.citations.map_values(|c: (Seq<char>, u32)| citation_json(c)).push(
                        citation_json((ref_@, *score_bits)),
                    ));
                }
            },
            AgentEvent::RunFinished { finish: f, .. } => {
                finish = finish_reason_str(*f);
            },
            _ => {},
        }
        i = i + 1;
    }
    proof {
        assert(evs.take(events@.len() as int) =~= evs);
    }
    let ghost r = fold_reply(evs);
    if refs.len() > 0 {
        content.append("\n\nSources: ");
        let joined = join_strings(refs.as_slice(), "; ");
        content.append(joined.as_str());
        proof {
            assert(refs@.map_values(|p: String| p@) =~= crate::prompt::views(refs@));
        }
    }
    assert(content@ == reply_content(r));
    let mut msg: Vec<(String, Wire)> = Vec::new();
    obj_push(&mut msg, "role", jstr("assistant"));
    obj_push(&mut msg, "content", jstring(content));
    let mut choice: Vec<(String, Wire)> = Vec::new();
    obj_push(&mut choice, "index", Wire::UInt(0));
    obj_push(&mut choice, "message", obj(msg));
    obj_push(&mut choice, "finish_reason", jstr(finish));
    let mut choices: Vec<Wire> = Vec::new();
    arr_push(&mut choices, obj(choice));
    let mut meta: Vec<(String, Wire)> = Vec::new();
    obj_push(&mut meta, "citations", arr(cites));
    let mut top: Vec<(String, Wire)> = Vec::new();
    obj_push(&mut top, "id", jstring(completion_id_string(id)));
    obj_push(&mut top, "object", jstr("chat.completion"));
    obj_push(&mut top, "model", jstr(MODEL_NAME));
    obj_push(&mut top, "choices", arr(choices));
    obj_push(&mut top, "metadata", obj(meta));
    proof {
        assert(entries(msg@) =~= seq![("role"@, Json::Str("assistant"@)), ("content"@, Json::Str(reply_content(r)))]);
        assert(entries(choice@) =~= seq![
            ("index"@, Json::UInt(0)),
            ("message"@, Json::Object(entries(msg@))),
            ("finish_reason"@, Json::Str(r.finish)),
        ]);
        assert(jsons(choices@) =~= seq![Json::Object(entries(choice@))]);
        assert(entries(meta@) =~= seq![
            ("citations"@, Json::Array(r.citations.map_values(|c: (Seq<char>, u32)| citation_json(c)))),
        ]);
        assert(entries(top@) =~= seq![
            ("id"@, Json::Str(completion_id(id))),
            ("object"@, Json::Str("chat.completion"@)),
            ("model"@, Json::Str(MODEL_NAME@)),
            ("choices"@, Json::Array(jsons(choices@))),
            ("metadata"@, Json::Object(entries(meta@))),
        ]);
    }
    obj(top)
}

/// A `chat.completion.chunk` carrying `delta`, with no finish reason yet.
pub open spec fn delta_chunk_json(id: u128, delta: Json) -> Json {
    Json::Object(
        seq![
            ("id"@, Json::Str(completion_id(id))),
            ("object"@, Json::Str("chat.completion.chunk"@)),
            ("model"@, Json::Str(MODEL_NAME@)),
            (
                "choices"@,
                Json::Array(
                    seq![
                        Json::Object(
                            seq![("index"@, Json::UInt(0)), ("delta"@, delta), ("finish_reason"@, Json::Null)],
                        ),
                    ],
                ),
            ),
        ],
    )
}

/// The terminal chunk carrying `finish_reason`.
pub open spec fn finish_chunk_json(id: u128, finish: Seq<char>) -> Json {
    Json::Object(
        seq![
            ("id"@, Json::Str(completion_id(id))),
            ("object"@, Json::Str("chat.completion.chunk"@)),
            ("model"@, Json::Str(MODEL_NAME@)),
            (
                "choices"@,
                Json::Array(
                    seq![
                        Json::Object(
                            seq![
                                ("index"@, Json::UInt(0)),
                                ("delta"@, Json::Object(Seq::empty())),
                                ("finish_reason"@, Json::Str(finish)),
                            ],
                        ),
                    ],
                ),
            ),
        ],
    )
}

/// The chunk an event streams as, if any: text and refusals as content deltas, citations as
/// a namespaced metadata-only delta (clients that ignore unknown fields still work), and the
/// finish as the terminal chunk.
pub open spec fn stream_chunk(id: u128, e: EventView) -> Option<Json> {
    match e {
        EventView::TextMessageDelta { delta, .. } => Some(
            delta_chunk_json(id, Json::Object(seq![("content"@, Json::Str(delta))])),
        ),
        EventView::Refusal { reason } => Some(
            delta_chunk_json(id, Json::Object(seq![("content"@, Json::Str(refusal_message(reason)))])),
        ),
        EventView::Citation { ref_, score_bits, .. } => Some(
            delta_chunk_json(
                id,
                Json::Object(seq![("x-jesus-twin-citation"@, citation_json((ref_, score_bits)))]),
            ),
        ),
        EventView::RunFinished { finish, .. } => Some(finish_chunk_json(id, finish_text(finish))),
        _ => None,
    }
}

/// The chunks of a stream, in event order.
pub open spec fn stream_chunks(id: u128, evs: Seq<EventView>) -> Seq<Json>
    decreases evs.len(),
{
    if evs.len() == 0 {
        Seq::empty()
    } else {
        let before = stream_chunks(id, evs.drop_last());
        match stream_chunk(id, evs.last()) {
            Some(c) => before.push(c),
            None => before,
        }
    }
}

fn chunk_frame(id: u128, choice: Vec<(String, Wire)>) -> (w: Wire)
    ensures
        json(w) == Json::Object(
            seq![
                ("id"@, Json::Str(completion_id(id))),
                ("object"@, Json::Str("chat.completion.chunk"@)),
                ("model"@, Json::Str(MODEL_NAME@)),
                ("choices"@, Json::Array(seq![Json::Object(entries(choice@))])),
            ],
        ),
{
    let mut choices: Vec<Wire> = Vec::new();
    arr_push(&mut choices, obj(choice));
    let mut top: Vec<(String, Wire)> = Vec::new();
    obj_push(&mut top, "id", jstring(completion_id_string(id)));
    obj_push(&mut top, "object", jstr("chat.completion.chunk"));
    obj_push(&mut top, "model", jstr(MODEL_NAME));
    obj_push(&mut top, "choices", arr(choices));
    proof {
        assert(jsons(choices@) =~= seq![Json::Object(entries(choice@))]);
        assert(entries(top@) =~= seq![
            ("id"@, Json::Str(completion_id(id))),
            ("object"@, Json::Str("chat.completion.chunk"@)),
            ("model"@, Json::Str(MODEL_NAME@)),
            ("choices"@, Json::Array(jsons(choices@))),
        ]);
    }
    obj(top)
}

/// A delta chunk.
pub fn delta_chunk(id: u128, delta: Wire) -> (w: Wire)
    ensures
        json(w) == delta_chunk_json(id, json(delta)),
{
    let ghost d = json(delta);
    let mut choice: Vec<(String, Wire)> = Vec::new();
    obj_push(&mut choice, "index", Wire::UInt(0));
    obj_push(&mut choice, "delta", delta);
    obj_push(&mut choice, "finish_reason", Wire::Null);
    proof {
        assert(entries(choice@) =~= seq![("index"@, Json::UInt(0)), ("delta"@, d), ("finish_reason"@, Json::Null)]);
    }
    chunk_frame(id, choice)
}

/// The terminal chunk.
pub fn finish_chunk(id: u128, finish: &str) -> (w: Wire)
    ensures
        json(w) == finish_chunk_json(id, finish@),
{
    let mut choice: Vec<(String, Wire)> = Vec::new();
    let empty: Vec<(String, Wire)> = Vec::new();
    assert(entries(empty@) =~= Seq::<(Seq<char>, Json)>::empty());
    obj_push(&mut choice, "index", Wire::UInt(0));
    obj_push(&mut choice, "delta", obj(empty));
    obj_push(&mut choice, "finish_reason", jstr(finish));
    proof {
        assert(entries(choice@) =~= seq![
            ("index"@, Json::UInt(0)),
            ("delta"@, Json::Object(Seq::empty())),
            ("finish_reason"@, Json::Str(finish@)),
        ]);
    }
    chunk_frame(id, choice)
}

fn content_delta(text: String) -> (w: Wire)
    ensures
        json(w) == Json::Object(seq![("content"@, Json::Str(text@))]),
{
    let mut f: Vec<(String, Wire)> = Vec::new();
    obj_push(&mut f, "content", jstring(text));
    assert(entries(f@) =~= seq![("content"@, Json::Str(text@))]);
    obj(f)
}

/// One server-sent frame of a streamed reply: a `chat.completion.chunk`, or the closing
/// `[DONE]` sentinel that the OpenAI client protocol expects.
#[derive(Debug)]
pub enum StreamFrame {
    Chunk(Wire),
    Done,
}

/// What a frame carries: the chunk's JSON, or nothing for the sentinel.
pub open spec fn frame_json(f: StreamFrame) -> Option<Json> {
    match f {
        StreamFrame::Chunk(w) => Some(json(w)),
        StreamFrame::Done => None,
    }
}

/// The frames of a stream: every chunk in event order, then the sentinel.
pub open spec fn stream_frames(id: u128, evs: Seq<EventView>) -> Seq<Option<Json>> {
    stream_chunks(id, evs).map_values(|c: Json| Some(c)).push(None)
}

/// The SSE frames of a stream with id `chatcmpl-<id>`: its `chat.completion.chunk`s in event
/// order, terminated by the `[DONE]` sentinel.
pub fn stream_response(events: &[AgentEvent], id: u128) -> (r: Vec<StreamFrame>)
    ensures
        r@.map_values(|f: StreamFrame| frame_json(f)) == stream_frames(id, event_views(events@)),
{
    let ghost evs = event_views(events@);
    let mut r: Vec<StreamFrame> = Vec::new();
    let mut i: usize = 0;
    proof {
        assert(r@.map_values(|f: StreamFrame| frame_json(f)) =~= stream_chunks(id, evs.take(0)).map_values(
            |c: Json| Some(c),
        ));
    }
    while i < events.len()
        invariant
            0 <= i <= events@.len(),
            evs == event_views(events@),
            r@.map_values(|f: StreamFrame| frame_json(f)) == stream_chunks(id, evs.take(i as int)).map_values(
                |c: Json| Some(c),
            ),
        decreases events.len() - i,
    {
        proof {
            assert(evs.take(i + 1).drop_last() =~= evs.take(i as int));
            assert(evs.take(i + 1).last() == event_view(events@[i as int]));
        }
        let ghost before = r@;
        let chunk: Option<Wire> = match &events[i] {
            AgentEvent::TextMessageDelta { delta, .. } => Some(delta_chunk(id, content_delta(delta.clone()))),
            AgentEvent::Refusal { reason } => Some(delta_chunk(id, content_delta(refusal_text(reason)))),
            AgentEvent::Citation { ref_, score_bits, .. } => {
                let mut f: Vec<(String, Wire)> = Vec::new();
                obj_push(&mut f, "x-jesus-twin-citation", citation_wire(ref_, *score_bits));
                assert(entries(f@) =~= seq![("x-jesus-twin-citation"@, citation_json((ref_@, *score_bits)))]);
                Some(delta_chunk(id, obj(f)))
            },
            AgentEvent::RunFinished { finish, .. } => Some(finish_chunk(id, finish_reason_str(*finish))),
            _ => None,
        };
        assert(stream_chunk(id, evs[i as int]) == match chunk {
            Some(w) => Some(json(w)),
            None => None,
        });
        match chunk {
            Some(w) => {
                r.push(StreamFrame::Chunk(w));
                proof {
                    assert(r@.map_values(|f: StreamFrame| frame_json(f)) =~= before.map_values(
                        |f: StreamFrame| frame_json(f),
                    ).push(Some(json(w))));
                    assert(stream_chunks(id, evs.take(i + 1)) == stream_chunks(id, evs.take(i as int)).push(json(w)));
                    assert(stream_chunks(id, evs.take(i + 1)).map_values(|c: Json| Some(c)) =~= stream_chunks(
                        id,
                        evs.take(i as int),
                    ).map_values(|c: Json| Some(c)).push(Some(json(w))));
                }
            },
            None => {
                assert(stream_chunks(id, evs.take(i + 1)) == stream_chunks(id, evs.take(i as int)));
            },
        }
        i = i + 1;
    }
    proof {
        assert(evs.take(events@.len() as int) =~= evs);
    }
    let ghost body = r@;
    r.push(StreamFrame::Done);
    proof {
        assert(r@.map_values(|f: StreamFrame| frame_json(f)) =~= body.map_values(|f: StreamFrame| frame_json(f)).push(
            None,
        ));
    }
    r
}


/// A refused turn reads as an honest refusal: its refusal message follows whatever text came
/// before, and its finish is `content_filter`.
pub proof fn lemma_refusal_reply(evs: Seq<EventView>, reason: RefusalReason, run_id: u128)
    ensures
        ({
            let r = fold_reply(
                evs.push(EventView::Refusal { reason }).push(EventView::RunFinished { run_id, finish: FinishReason::Refusal }),
            );
            &&& r.content == fold_reply(evs).content + refusal_message(reason)
            &&& r.finish == "content_filter"@
            &&& r.citations == fold_reply(evs).citations
        }),
{
    let once = evs.push(EventView::Refusal { reason });
    let twice = once.push(EventView::RunFinished { run_id, finish: FinishReason::Refusal });
    assert(twice.drop_last() =~= once);
    assert(once.drop_last() =~= evs);
    assert(fold_reply(twice) == reply_step(
        fold_reply(once),
        EventView::RunFinished { run_id, finish: FinishReason::Refusal },
    ));
    assert(fold_reply(once) == reply_step(fold_reply(evs), EventView::Refusal { reason }));
}


/// `x` occurs in `text`, and `y` occurs after it ends.
pub open spec fn in_order(text: Seq<char>, x: Seq<char>, y: Seq<char>) -> bool {
    exists|a: int, b: int|
        #![trigger occurs_at(text, x, a), occurs_at(text, y, b)]
        a + x.len() <= b && occurs_at(text, x, a) && occurs_at(text, y, b)
}

/// A cited reply names every source inline: its content begins with the streamed text and
/// the `Sources:` header, and each citation's ref occurs after that header, the refs in the
/// order they were cited.
pub proof fn lemma_sources_name_every_citation(r: Reply)
    requires
        r.citations.len() > 0,
    ensures
        starts_with(reply_content(r), r.content + "\n\nSources: "@),
        forall|i: int|
            0 <= i < r.citations.len() ==> contains(
                reply_content(r).skip((r.content + "\n\nSources: "@).len() as int),
                #[trigger] r.citations[i].0,
            ),
        forall|i: int, j: int|
            0 <= i < j < r.citations.len() ==> #[trigger] in_order(
                reply_content(r),
                r.citations[i].0,
                r.citations[j].0,
            ),
{
    reveal_strlit("; ");
    let head = r.content + "\n\nSources: "@;
    let refs = r.citations.map_values(|c: (Seq<char>, u32)| c.0);
    let list = join(refs, "; "@);
    let e = Seq::<char>::empty();
    assert(reply_content(r) == head + list);
    assert(reply_content(r).subrange(0, head.len() as int) =~= head);
    assert(reply_content(r).skip(head.len() as int) =~= list);
    assert forall|i: int| 0 <= i < r.citations.len() implies contains(
        reply_content(r).skip(head.len() as int),
        #[trigger] r.citations[i].0,
    ) by {
        lemma_join_occurs(refs, "; "@, i);
        assert(refs[i] == r.citations[i].0);
    }
    assert forall|i: int, j: int| 0 <= i < j < r.citations.len() implies #[trigger] in_order(
        reply_content(r),
        r.citations[i].0,
        r.citations[j].0,
    ) by {
        lemma_join_occurs(refs, "; "@, i);
        lemma_join_occurs(refs, "; "@, j);
        lemma_join_in_order(refs, "; "@, i, j);
        lemma_occurs_within(head, list, e, refs[i], join_offset(refs, "; "@, i));
        lemma_occurs_within(head, list, e, refs[j], join_offset(refs, "; "@, j));
        assert(head + list + e =~= reply_content(r));
        let a = head.len() + join_offset(refs, "; "@, i);
        let b = head.len() + join_offset(refs, "; "@, j);
        assert(occurs_at(reply_content(r), r.citations[i].0, a));
        assert(occurs_at(reply_content(r), r.citations[j].0, b));
    }
}

/// The error body every adapter answers a failed request with.
pub open spec fn error_body_json(message: Seq<char>) -> Json {
    Json::Object(
        seq![
            (
                "error"@,
                Json::Object(seq![("message"@, Json::Str(message)), ("type"@, Json::Str("request_error"@))]),
            ),
        ],
    )
}

/// `{ "error": { "message": .., "type": "request_error" } }`.
pub fn error_body(message: &str) -> (w: Wire)
    ensures
        json(w) == error_body_json(message@),
{
    let mut inner: Vec<(String, Wire)> = Vec::new();
    obj_push(&mut inner, "message", jstr(message));
    obj_push(&mut inner, "type", jstr("request_error"));
    let mut top: Vec<(String, Wire)> = Vec::new();
    obj_push(&mut top, "error", obj(inner));
    proof {
        assert(entries(inner@) =~= seq![("message"@, Json::Str(message@)), ("type"@, Json::Str("request_error"@))]);
        assert(entries(top@) =~= seq![("error"@, Json::Object(entries(inner@)))]);
    }
    obj(top)
}

} // verus!
