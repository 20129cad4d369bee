//! The built-in skills, all read-only: `lookup_saying`, `find_by_move`, `parallels`,
//! `render_modern` and `mindmap`. Each is a thin step around one store or engine call; the
//! call itself is the application's, while the argument it reads and the JSON it answers
//! with are built here.
use vstd::prelude::*;
use crate::inference::GenRequest;
use crate::mindmap::{MindmapDelta, MindmapEdge, MindmapNode, edge_view, node_view};
use crate::orchestrator::{score_json, score_wire};
use crate::retrieve::Passage;
use crate::skills::{
    Authorizer, Registry, RiskClass, SkillError, SkillSpec, SkillView, put, skill_view,
};
use crate::text::trim;
use crate::jsontext::{parse_json, parsed_json};
use crate::wire::{
    Json, Wire, arr, arr_push, entries, field, json, jsons, jstr, jstring, obj, obj_push,
};

verus! {

/// How many sayings `find_by_move` lists.
pub const FIND_BY_MOVE_LIMIT: usize = 20;

/// How many related sayings `parallels` retrieves.
pub const PARALLELS_LIMIT: usize = 5;

/// How many sayings the `mindmap` projection draws on.
pub const MINDMAP_LIMIT: usize = 8;

pub const LOOKUP_SAYING_DESCRIPTION: &'static str = "Fetch a single recorded saying by its exact scripture reference (e.g. 'Mark 12:17').";

pub const FIND_BY_MOVE_DESCRIPTION: &'static str = "List sayings that use a given reasoning move (M01..M18). May be empty until the corpus is annotated with moves.";

pub const PARALLELS_DESCRIPTION: &'static str = "Find sayings related to a topic or phrase (synoptic parallels / semantically close).";

pub const RENDER_MODERN_DESCRIPTION: &'static str = "Render a saying (by reference) in present-day English, preserving its force. The transform is always anchored to the cited original text \u{2014} never invented.";

pub const MINDMAP_DESCRIPTION: &'static str = "Project a mind-map graph around a topic: the related sayings, their reasoning moves, and parallels between sayings that share a move. Returns nodes + edges.";

/// The instruction `render_modern` gives the engine: render, never invent.
pub const RENDER_SYSTEM: &'static str = "Render the supplied saying in present-day English, preserving its force. Use only the supplied text; never invent.";

/// The schema of a skill taking one required string parameter.
pub open spec fn string_param_json(name: Seq<char>, desc: Seq<char>) -> Json {
    Json::Object(
        seq![
            ("type"@, Json::Str("object"@)),
            (
                "properties"@,
                Json::Object(
                    seq![
                        (
                            name,
                            Json::Object(
                                seq![("type"@, Json::Str("string"@)), ("description"@, Json::Str(desc))],
                            ),
                        ),
                    ],
                ),
            ),
            ("required"@, Json::Array(seq![Json::Str(name)])),
        ],
    )
}

/// A schema with one required string parameter `name`, described by `desc`.
pub fn string_param(name: &str, desc: &str) -> (w: Wire)
    ensures
        json(w) == string_param_json(name@, desc@),
{
    let mut p: Vec<(String, Wire)> = Vec::new();
    obj_push(&mut p, "type", jstr("string"));
    obj_push(&mut p, "description", jstr(desc));
    let mut props: Vec<(String, Wire)> = Vec::new();
    obj_push(&mut props, name, obj(p));
    let mut req: Vec<Wire> = Vec::new();
    arr_push(&mut req, jstr(name));
    let mut top: Vec<(String, Wire)> = Vec::new();
    obj_push(&mut top, "type", jstr("object"));
    obj_push(&mut top, "properties", obj(props));
    obj_push(&mut top, "required", arr(req));
    proof {
        assert(jsons(req@) =~= seq![Json::Str(name@)]);
        assert(entries(p@) =~= seq![("type"@, Json::Str("string"@)), ("description"@, Json::Str(desc@))]);
        assert(entries(props@) =~= seq![(name@, Json::Object(entries(p@)))]);
        assert(entries(top@) =~= seq![
            ("type"@, Json::Str("object"@)),
            ("properties"@, Json::Object(entries(props@))),
            ("required"@, Json::Array(seq![Json::Str(name@)])),
        ]);
    }
    obj(top)
}

/// A read-only skill with a one-string schema.
pub open spec fn read_only_view(name: Seq<char>, description: Seq<char>, param: Seq<char>, param_desc: Seq<char>) -> SkillView {
    SkillView {
        name,
        description,
        risk: RiskClass::ReadOnly,
        schema: string_param_json(param, param_desc),
    }
}

fn read_only_spec(name: &str, description: &str, param: &str, param_desc: &str) -> (s: SkillSpec)
    ensures
        skill_view(s) == read_only_view(name@, description@, param@, param_desc@),
{
    SkillSpec {
        name: String::from_str(name),
        description: String::from_str(description),
        risk: RiskClass::ReadOnly,
        schema: string_param(param, param_desc),
    }
}

pub open spec fn lookup_saying_view() -> SkillView {
    read_only_view("lookup_saying"@, LOOKUP_SAYING_DESCRIPTION@, "ref"@, "Scripture reference, e.g. 'Mark 12:17'."@)
}

pub open spec fn find_by_move_view() -> SkillView {
    read_only_view("find_by_move"@, FIND_BY_MOVE_DESCRIPTION@, "move"@, "Reasoning move id, e.g. 'M02'."@)
}

pub open spec fn parallels_view() -> SkillView {
    read_only_view("parallels"@, PARALLELS_DESCRIPTION@, "query"@, "A topic or phrase to find related sayings for."@)
}

pub open spec fn render_modern_view() -> SkillView {
    read_only_view(
        "render_modern"@,
        RENDER_MODERN_DESCRIPTION@,
        "ref"@,
        "Scripture reference to render, e.g. 'Mark 12:17'."@,
    )
}

pub open spec fn mindmap_view() -> SkillView {
    read_only_view("mindmap"@, MINDMAP_DESCRIPTION@, "topic"@, "A topic or phrase to build the mind-map around."@)
}

/// Fetch one saying by its exact citation.
#[derive(Debug, Clone, Copy)]
pub struct LookupSaying;

/// List the sayings tagged with a reasoning move.
#[derive(Debug, Clone, Copy)]
pub struct FindByMove;

/// Find sayings related to a topic or phrase.
#[derive(Debug, Clone, Copy)]
pub struct Parallels;

/// Render a saying's original text in present-day English.
#[derive(Debug, Clone, Copy)]
pub struct RenderModern;

/// Project a mind-map graph around a topic.
#[derive(Debug, Clone, Copy)]
pub struct Mindmap;

impl LookupSaying {
    /// `lookup_saying(ref)`.
    pub fn descriptor(&self) -> (s: SkillSpec)
        ensures
            skill_view(s) == lookup_saying_view(),
    {
        read_only_spec("lookup_saying", LOOKUP_SAYING_DESCRIPTION, "ref", "Scripture reference, e.g. 'Mark 12:17'.")
    }
}

impl FindByMove {
    /// `find_by_move(move)`.
    pub fn descriptor(&self) -> (s: SkillSpec)
        ensures
            skill_view(s) == find_by_move_view(),
    {
        read_only_spec("find_by_move", FIND_BY_MOVE_DESCRIPTION, "move", "Reasoning move id, e.g. 'M02'.")
    }
}

impl Parallels {
    /// `parallels(query)`.
    pub fn descriptor(&self) -> (s: SkillSpec)
        ensures
            skill_view(s) == parallels_view(),
    {
        read_only_spec("parallels", PARALLELS_DESCRIPTION, "query", "A topic or phrase to find related sayings for.")
    }
}

impl RenderModern {
    /// `render_modern(ref)`.
    pub fn descriptor(&self) -> (s: SkillSpec)
        ensures
            skill_view(s) == render_modern_view(),
    {
        read_only_spec(
            "render_modern",
            RENDER_MODERN_DESCRIPTION,
            "ref",
            "Scripture reference to render, e.g. 'Mark 12:17'.",
        )
    }
}

impl Mindmap {
    /// `mindmap(topic)`.
    pub fn descriptor(&self) -> (s: SkillSpec)
        ensures
            skill_view(s) == mindmap_view(),
    {
        read_only_spec("mindmap", MINDMAP_DESCRIPTION, "topic", "A topic or phrase to build the mind-map around.")
    }
}

/// Register every built-in skill, in the order `lookup_saying`, `find_by_move`, `parallels`,
/// `render_modern`, `mindmap`.
pub fn register_builtins<A: Authorizer>(registry: Registry<A>) -> (r: Registry<A>)
    ensures
        r@ == put(
            put(put(put(put(registry@, lookup_saying_view()), find_by_move_view()), parallels_view()), render_modern_view()),
            mindmap_view(),
        ),
        r.policy() == registry.policy(),
{
    registry.with(LookupSaying.descriptor()).with(FindByMove.descriptor()).with(Parallels.descriptor()).with(
        RenderModern.descriptor(),
    ).with(Mindmap.descriptor())
}

/// Why a required string argument is missing.
pub open spec fn missing_arg_text(key: Seq<char>) -> Seq<char> {
    "missing string argument '"@ + key + "'"@
}

/// A required string argument: the string under `key` when it is there and not blank.
pub open spec fn arg_value(args: Json, key: Seq<char>) -> Option<Seq<char>> {
    match field(args, key) {
        Some(Json::Str(s)) => if trim(s).len() > 0 {
            Some(s)
        } else {
            None
        },
        _ => None,
    }
}

/// The message of arguments that are not JSON.
pub const ARGS_NOT_JSON: &'static str = "invalid --args JSON";

/// A skill's arguments read from their JSON text, or `InvalidArgs` when the text is not
/// JSON.
pub fn skill_args(text: &str) -> (r: Result<Wire, SkillError>)
    ensures
        match parsed_json(text@) {
            Some(j) => r matches Ok(w) && json(w) == j,
            None => r matches Err(SkillError::InvalidArgs(m)) && m@ == ARGS_NOT_JSON@,
        },
{
    match parse_json(text) {
        Some(w) => Ok(w),
        None => Err(SkillError::InvalidArgs(String::from_str(ARGS_NOT_JSON))),
    }
}

/// Pull the required string argument `key`, or fail with `InvalidArgs`.
pub fn arg_str(args: &Wire, key: &str) -> (r: Result<String, SkillError>)
    ensures
        match arg_value(json(*args), key@) {
            Some(s) => r matches Ok(v) && v@ == s,
            None => r matches Err(SkillError::InvalidArgs(m)) && m@ == missing_arg_text(key@),
        },
{
    let found = match args.get(key) {
        Some(w) => match w.as_str() {
            Some(s) => {
                let t = crate::text::trim_str(s.as_str());
                if t.as_str().is_empty() {
                    None
                } else {
                    Some(s.clone())
                }
            },
            None => None,
        },
        None => None,
    };
    match found {
        Some(s) => Ok(s),
        None => {
            let mut m = String::from_str("missing string argument '");
            m.append(key);
            m.append("'");
            Err(SkillError::InvalidArgs(m))
        },
    }
}

/// `lookup_saying`'s answer: the saying's ref, texts and move, or `found: false`.
pub open spec fn lookup_json(reference: Seq<char>, found: Option<Passage>) -> Json {
    match found {
        Some(p) => Json::Object(
            seq![
                ("ref"@, Json::Str(p.ref_@)),
                ("text_original"@, Json::Str(p.text_original@)),
                ("text_modern"@, Json::Str(p.text_modern@)),
                ("move"@, Json::Str(p.move_@)),
            ],
        ),
        None => Json::Object(seq![("ref"@, Json::Str(reference)), ("found"@, Json::Bool(false))]),
    }
}

/// Answer `lookup_saying(reference)` from what the store found under that citation.
pub fn lookup_saying_result(reference: String, found: Option<Passage>) -> (w: Wire)
    ensures
        json(w) == lookup_json(reference@, found),
{
    let mut f: Vec<(String, Wire)> = Vec::new();
    match found {
        Some(p) => {
            obj_push(&mut f, "ref", jstring(p.ref_.clone()));
            obj_push(&mut f, "text_original", jstring(p.text_original.clone()));
            obj_push(&mut f, "text_modern", jstring(p.text_modern.clone()));
            obj_push(&mut f, "move", jstring(p.move_.clone()));
            proof {
                assert(entries(f@) =~= seq![
                    ("ref"@, Json::Str(p.ref_@)),
                    ("text_original"@, Json::Str(p.text_original@)),
                    ("text_modern"@, Json::Str(p.text_modern@)),
                    ("move"@, Json::Str(p.move_@)),
                ]);
            }
        },
        None => {
            obj_push(&mut f, "ref", jstring(reference));
            obj_push(&mut f, "found", Wire::Bool(false));
            proof {
                assert(entries(f@) =~= seq![("ref"@, Json::Str(reference@)), ("found"@, Json::Bool(false))]);
            }
        },
    }
    obj(f)
}

/// A saying as `find_by_move` lists it.
pub open spec fn move_row(p: Passage) -> Json {
    Json::Object(seq![("ref"@, Json::Str(p.ref_@)), ("text_original"@, Json::Str(p.text_original@))])
}

/// `find_by_move`'s answer.
pub open spec fn find_by_move_json(move_id: Seq<char>, found: Seq<Passage>) -> Json {
    Json::Object(
        seq![
            ("move"@, Json::Str(move_id)),
            ("count"@, Json::UInt(found.len() as u64)),
            ("sayings"@, Json::Array(found.map_values(|p: Passage| move_row(p)))),
        ],
    )
}

/// Answer `find_by_move(move_id)` from the sayings the store found.
pub fn find_by_move_result(move_id: String, found: &[Passage]) -> (w: Wire)
    ensures
        json(w) == find_by_move_json(move_id@, found@),
{
    let mut rows: Vec<Wire> = Vec::new();
    let mut i: usize = 0;
    while i < found.len()
        invariant
            0 <= i <= found@.len(),
            jsons(rows@) == found@.take(i as int).map_values(|p: Passage| move_row(p)),
        decreases found.len() - i,
    {
        let mut f: Vec<(String, Wire)> = Vec::new();
        obj_push(&mut f, "ref", jstring(found[i].ref_.clone()));
        obj_push(&mut f, "text_original", jstring(found[i].text_original.clone()));
        proof {
            assert(entries(f@) =~= seq![
                ("ref"@, Json::Str(found@[i as int].ref_@)),
                ("text_original"@, Json::Str(found@[i as int].text_original@)),
            ]);
        }
        arr_push(&mut rows, obj(f));
        proof {
            assert(found@.take(i + 1).map_values(|p: Passage| move_row(p)) =~= found@.take(i as int).map_values(
                |p: Passage| move_row(p),
            ).push(move_row(found@[i as int])));
        }
        i = i + 1;
    }
    proof {
        assert(found@.take(found@.len() as int) =~= found@);
    }
    let mut f: Vec<(String, Wire)> = Vec::new();
    obj_push(&mut f, "move", jstring(move_id));
    obj_push(&mut f, "count", Wire::UInt(found.len() as u64));
    obj_push(&mut f, "sayings", arr(rows));
    proof {
        assert(entries(f@) =~= seq![
            ("move"@, Json::Str(move_id@)),
            ("count"@, Json::UInt(found@.len() as u64)),
            ("sayings"@, Json::Array(found@.map_values(|p: Passage| move_row(p)))),
        ]);
    }
    obj(f)
}

/// A related saying as `parallels` lists it.
pub open spec fn related_row(p: Passage) -> Json {
    Json::Object(
        seq![
            ("ref"@, Json::Str(p.ref_@)),
            ("text_original"@, Json::Str(p.text_original@)),
            ("score"@, score_json(p.score_bits)),
        ],
    )
}

/// `parallels`' answer.
pub open spec fn parallels_json(query: Seq<char>, related: Seq<Passage>) -> Json {
    Json::Object(
        seq![("query"@, Json::Str(query)), ("related"@, Json::Array(related.map_values(|p: Passage| related_row(p))))],
    )
}

/// Answer `parallels(query)` from the passages retrieval returned.
pub fn parallels_result(query: String, related: &[Passage]) -> (w: Wire)
    ensures
        json(w) == parallels_json(query@, related@),
{
    let mut rows: Vec<Wire> = Vec::new();
    let mut i: usize = 0;
    while i < related.len()
        invariant
            0 <= i <= related@.len(),
            jsons(rows@) == related@.take(i as int).map_values(|p: Passage| related_row(p)),
        decreases related.len() - i,
    {
        let p = &related[i];
        let mut f: Vec<(String, Wire)> = Vec::new();
        obj_push(&mut f, "ref", jstring(p.ref_.clone()));
        obj_push(&mut f, "text_original", jstring(p.text_original.clone()));
        obj_push(&mut f, "score", score_wire(p.score_bits));
        proof {
            assert(entries(f@) =~= seq![
                ("ref"@, Json::Str(p.ref_@)),
                ("text_original"@, Json::Str(p.text_original@)),
                ("score"@, score_json(p.score_bits)),
            ]);
        }
        arr_push(&mut rows, obj(f));
        proof {
            assert(related@.take(i + 1).map_values(|p: Passage| related_row(p)) =~= related@.take(
                i as int,
            ).map_values(|p: Passage| related_row(p)).push(related_row(related@[i as int])));
        }
        i = i + 1;
    }
    proof {
        assert(related@.take(related@.len() as int) =~= related@);
    }
    let mut f: Vec<(String, Wire)> = Vec::new();
    obj_push(&mut f, "query", jstring(query));
    obj_push(&mut f, "related", arr(rows));
    proof {
        assert(entries(f@) =~= seq![
            ("query"@, Json::Str(query@)),
            ("related"@, Json::Array(related@.map_values(|p: Passage| related_row(p)))),
        ]);
    }
    obj(f)
}

/// Why `render_modern` cannot run: no saying under that citation.
pub fn no_saying_at(reference: &String) -> (e: SkillError)
    ensures
        e matches SkillError::Execution(m) && m@ == "no saying at '"@ + reference@ + "'"@,
{
    let mut m = String::from_str("no saying at '");
    m.append(reference.as_str());
    m.append("'");
    SkillError::Execution(m)
}

/// What `render_modern` asks the engine: render the cited original line, and nothing else.
pub fn render_modern_request(saying: &Passage) -> (req: GenRequest)
    ensures
        req.system@ == RENDER_SYSTEM@,
        req.context@ == saying.ref_@ + ": "@ + saying.text_original@,
        req.user@ == "Render "@ + saying.ref_@ + " in present-day English."@,
{
    let mut context = saying.ref_.clone();
    context.append(": ");
    context.append(saying.text_original.as_str());
    let mut user = String::from_str("Render ");
    user.append(saying.ref_.as_str());
    user.append(" in present-day English.");
    GenRequest { system: String::from_str(RENDER_SYSTEM), context, user }
}

/// `render_modern`'s answer: the citation, its original text, and the rendering.
pub open spec fn render_json(saying: Passage, modern: Seq<char>) -> Json {
    Json::Object(
        seq![
            ("ref"@, Json::Str(saying.ref_@)),
            ("original"@, Json::Str(saying.text_original@)),
            ("modern"@, Json::Str(modern)),
        ],
    )
}

/// Answer `render_modern` with the engine's rendering of `saying`.
pub fn render_modern_result(saying: &Passage, modern: String) -> (w: Wire)
    ensures
        json(w) == render_json(*saying, modern@),
{
    let mut f: Vec<(String, Wire)> = Vec::new();
    obj_push(&mut f, "ref", jstring(saying.ref_.clone()));
    obj_push(&mut f, "original", jstring(saying.text_original.clone()));
    obj_push(&mut f, "modern", jstring(modern));
    proof {
        assert(entries(f@) =~= seq![
            ("ref"@, Json::Str(saying.ref_@)),
            ("original"@, Json::Str(saying.text_original@)),
            ("modern"@, Json::Str(modern@)),
        ]);
    }
    obj(f)
}

pub open spec fn node_json(n: (Seq<char>, Seq<char>, Seq<char>)) -> Json {
    Json::Object(seq![("id"@, Json::Str(n.0)), ("label"@, Json::Str(n.1)), ("kind"@, Json::Str(n.2))])
}

pub open spec fn edge_json(e: (Seq<char>, Seq<char>, Seq<char>)) -> Json {
    Json::Object(seq![("from"@, Json::Str(e.0)), ("to"@, Json::Str(e.1)), ("relation"@, Json::Str(e.2))])
}

/// A mind-map delta as JSON: `{ nodes: [{id, label, kind}], edges: [{from, to, relation}] }`.
pub open spec fn delta_json(d: MindmapDelta) -> Json {
    Json::Object(
        seq![
            ("nodes"@, Json::Array(d.nodes@.map_values(|n: MindmapNode| node_json(node_view(n))))),
            ("edges"@, Json::Array(d.edges@.map_values(|e: MindmapEdge| edge_json(edge_view(e))))),
        ],
    )
}

/// Answer `mindmap(topic)` with the projected graph.
pub fn mindmap_result(delta: &MindmapDelta) -> (w: Wire)
    ensures
        json(w) == delta_json(*delta),
{
    let mut nodes: Vec<Wire> = Vec::new();
    let mut i: usize = 0;
    while i < delta.nodes.len()
        invariant
            0 <= i <= delta.nodes@.len(),
            jsons(nodes@) == delta.nodes@.take(i as int).map_values(|n: MindmapNode| node_json(node_view(n))),
        decreases delta.nodes.len() - i,
    {
        let n = &delta.nodes[i];
        let mut f: Vec<(String, Wire)> = Vec::new();
        obj_push(&mut f, "id", jstring(n.id.clone()));
        obj_push(&mut f, "label", jstring(n.label.clone()));
        obj_push(&mut f, "kind", jstring(n.kind.clone()));
        proof {
            assert(entries(f@) =~= seq![("id"@, Json::Str(n.id@)), ("label"@, Json::Str(n.label@)), ("kind"@, Json::Str(n.kind@))]);
        }
        arr_push(&mut nodes, obj(f));
        proof {
            assert(delta.nodes@.take(i + 1).map_values(|n: MindmapNode| node_json(node_view(n))) =~= delta.nodes@.take(
                i as int,
            ).map_values(|n: MindmapNode| node_json(node_view(n))).push(node_json(node_view(delta.nodes@[i as int]))));
        }
        i = i + 1;
    }
    let mut edges: Vec<Wire> = Vec::new();
    let mut j: usize = 0;
    while j < delta.edges.len()
        invariant
            0 <= j <= delta.edges@.len(),
            jsons(edges@) == delta.edges@.take(j as int).map_values(|e: MindmapEdge| edge_json(edge_view(e))),
        decreases delta.edges.len() - j,
    {
        let e = &delta.edges[j];
        let mut f: Vec<(String, Wire)> = Vec::new();
        obj_push(&mut f, "from", jstring(e.from.clone()));
        obj_push(&mut f, "to", jstring(e.to.clone()));
        obj_push(&mut f, "relation", jstring(e.relation.clone()));
        proof {
            assert(entries(f@) =~= seq![("from"@, Json::Str(e.from@)), ("to"@, Json::Str(e.to@)), ("relation"@, Json::Str(e.relation@))]);
        }
        arr_push(&mut edges, obj(f));
        proof {
            assert(delta.edges@.take(j + 1).map_values(|e: MindmapEdge| edge_json(edge_view(e))) =~= delta.edges@.take(
                j as int,
            ).map_values(|e: MindmapEdge| edge_json(edge_view(e))).push(edge_json(edge_view(delta.edges@[j as int]))));
        }
        j = j + 1;
    }
    proof {
        assert(delta.nodes@.take(delta.nodes@.len() as int) =~= delta.nodes@);
        assert(delta.edges@.take(delta.edges@.len() as int) =~= delta.edges@);
    }
    let mut f: Vec<(String, Wire)> = Vec::new();
    obj_push(&mut f, "nodes", arr(nodes));
    obj_push(&mut f, "edges", arr(edges));
    proof {
        assert(entries(f@) =~= seq![
            ("nodes"@, Json::Array(delta.nodes@.map_values(|n: MindmapNode| node_json(node_view(n))))),
            ("edges"@, Json::Array(delta.edges@.map_values(|e: MindmapEdge| edge_json(edge_view(e))))),
        ]);
    }
    obj(f)
}

} // verus!
