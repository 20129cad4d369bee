//! The MCP projection: the `ask` tool's session and result, and the skill tools' payloads.
//! The transport and the tool plumbing are the application's.
use vstd::prelude::*;
use crate::a2a::{citations_json, fold_answer, project_answer};
use crate::event::{AgentEvent, Role, event_views};
use crate::session::{Session, Turn, turn_views};
use crate::wire::{Json, Wire, arr, entries, json, jsons, obj, obj_push};

verus! {

/// What the MCP server tells its clients it is for.
pub const SERVER_INSTRUCTIONS: &'static str = "A study aid rendering the recorded teachings of Jesus of Nazareth in present-day English, grounded in cited verses. Use `ask` for a full answer, `list_skills` to discover the read-only skills, and `invoke_skill` to run one.";

/// Arguments for the `ask` tool.
#[derive(Debug, Clone)]
pub struct AskArgs {
    /// The question to put to the twin.
    pub question: String,
}

/// Arguments for the `invoke_skill` tool.
#[derive(Debug)]
pub struct InvokeSkillArgs {
    /// The skill name, e.g. `lookup_saying`.
    pub name: String,
    /// The skill's JSON arguments object, e.g. `{"ref": "Mark 12:17"}`.
    pub args: Wire,
}

/// The session an `ask` runs: a fresh conversation `id` holding the question as its one
/// user turn.
pub fn ask_session(args: &AskArgs, id: u128) -> (s: Session)
    ensures
        s.id == id,
        s.user_id is None,
        turn_views(s.turns@) == seq![(Role::User, args.question@)],
{
    let s = Session::new(id).with_turn(Turn::new(Role::User, args.question.as_str()));
    assert(turn_views(s.turns@) =~= seq![(Role::User, args.question@)]);
    s
}

/// Collapse the event stream into the answer text and its citation objects.
pub fn project(events: &[AgentEvent]) -> (r: (String, Vec<Wire>))
    ensures
        r.0@ == fold_answer(event_views(events@)).text,
        jsons(r.1@) == citations_json(fold_answer(event_views(events@)).citations),
{
    let (text, cites, _refused) = project_answer(events);
    (text, cites)
}

/// `{ "<key>": [items] }`: the structured block of a tool result.
pub fn listing(key: &str, items: Vec<Wire>) -> (w: Wire)
    ensures
        json(w) == Json::Object(seq![(key@, Json::Array(jsons(items@)))]),
{
    let ghost j = jsons(items@);
    let mut f: Vec<(String, Wire)> = Vec::new();
    obj_push(&mut f, key, arr(items));
    assert(entries(f@) =~= seq![(key@, Json::Array(j))]);
    obj(f)
}

} // verus!
