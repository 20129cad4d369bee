//! The agent turn: `admit -> recall -> retrieve -> coverage gate -> supplements -> generate
//! -> record`, as a state machine. The runtime performs each action it is handed (an
//! admission, a store query, a generation) and feeds the outcome back; the machine decides
//! what comes next and builds the canonical event stream. A refusal short-circuits before
//! the model runs.
use vstd::prelude::*;
use crate::admission::Cost;
use crate::agent::OrchestratorError;
use crate::event::{AgentEvent, EventView, FinishReason, RefusalReason, Role, event_view, event_views};
use crate::gate::{Coverage, CoverageGate, coverage_tier};
use crate::ids::uuid_text;
use crate::inference::GenRequest;
use crate::prompt::{
    MEMORY_INSTRUCTION, NARRATIVE_INSTRUCTION, PRINCIPLE_ADDENDUM_HEAD, PRINCIPLE_ADDENDUM_TAIL,
    SOURCE_INSTRUCTION, SYSTEM_PROMPT,
    assemble_context, assemble_context_low_confidence, assemble_context_principle_tier,
    assemble_memory_block, assemble_narrative_block, assemble_source_block, grounding_block,
    labeled_block, low_confidence_block, principle_tier_block, views,
};
use crate::retrieve::{NarrativePassage, Passage, RetrievalSet, SourcePassage};
use crate::session::{Session, Turn, memory_key};
use crate::text::{contains, join, join_offset, join_strings, lemma_join_occurs, lemma_occurs_within, trim, trim_str};
use crate::wire::{Json, Wire, arr, arr_push, jsons, jstr, jstr_array, jstring, json, entries, obj, obj_push};

verus! {

/// How many passages to retrieve as grounding context per turn.
pub const RETRIEVE_LIMIT: usize = 5;

/// How many of the most salient memories to recall per turn.
pub const MEMORY_LIMIT: usize = 3;

/// How many passages to pull from each supplementary labeled corpus per turn.
pub const SUPP_LIMIT: usize = 2;

/// How many distinct principles a low-confidence turn bridges to.
pub const MAX_PRINCIPLES: usize = 3;

/// The importance of the observation recorded after a turn.
pub const OBSERVATION_IMPORTANCE: i64 = 5;

/// The content of the most recent user turn.
pub open spec fn latest_user(turns: Seq<Turn>) -> Option<Seq<char>>
    decreases turns.len(),
{
    if turns.len() == 0 {
        None
    } else if turns.last().role == Role::User {
        Some(turns.last().content@)
    } else {
        latest_user(turns.drop_last())
    }
}

/// The most recent user turn's content, if any.
pub fn latest_user_message(session: &Session) -> (r: Option<String>)
    ensures
        match latest_user(session.turns@) {
            Some(q) => r matches Some(s) && s@ == q,
            None => r is None,
        },
{
    let mut i = session.turns.len();
    assert(session.turns@.take(i as int) =~= session.turns@);
    while i > 0
        invariant
            i <= session.turns@.len(),
            latest_user(session.turns@) == latest_user(session.turns@.take(i as int)),
        decreases i,
    {
        let t = &session.turns[i - 1];
        proof {
            assert(session.turns@.take(i as int).drop_last() =~= session.turns@.take(i - 1));
            assert(session.turns@.take(i as int).last() == session.turns@[i - 1]);
        }
        match t.role {
            Role::User => {
                return Some(t.content.clone());
            },
            _ => {},
        }
        i = i - 1;
    }
    None
}

/// `ref: text` for a saying: the cited original text, never the modern rendering.
pub open spec fn passage_line(p: Passage) -> Seq<char> {
    p.ref_@ + ": "@ + p.text_original@
}

pub open spec fn source_line(p: SourcePassage) -> Seq<char> {
    p.ref_@ + ": "@ + p.text@
}

pub open spec fn narrative_line(p: NarrativePassage) -> Seq<char> {
    p.ref_@ + ": "@ + p.text@
}

fn ref_line(r: &String, t: &String) -> (s: String)
    ensures
        s@ == r@ + ": "@ + t@,
{
    let mut s = r.clone();
    s.append(": ");
    s.append(t.as_str());
    s
}

/// The conditioning lines of the retrieved sayings: each the cited original text.
pub fn context_lines(passages: &[Passage]) -> (r: Vec<String>)
    ensures
        views(r@) == passages@.map_values(|p: Passage| passage_line(p)),
{
    let mut r: Vec<String> = Vec::new();
    let mut i: usize = 0;
    while i < passages.len()
        invariant
            0 <= i <= passages@.len(),
            views(r@) == passages@.take(i as int).map_values(|p: Passage| passage_line(p)),
        decreases passages.len() - i,
    {
        let ghost before = views(r@);
        r.push(ref_line(&passages[i].ref_, &passages[i].text_original));
        proof {
            assert(views(r@) =~= before.push(passage_line(passages@[i as int])));
            assert(passages@.take(i + 1).map_values(|p: Passage| passage_line(p)) =~= passages@.take(
                i as int,
            ).map_values(|p: Passage| passage_line(p)).push(passage_line(passages@[i as int])));
        }
        i = i + 1;
    }
    proof {
        assert(passages@.take(passages@.len() as int) =~= passages@);
    }
    r
}

/// The labeled lines of the Tanakh source-material block.
pub fn source_lines(hits: &[SourcePassage]) -> (r: Vec<String>)
    ensures
        views(r@) == hits@.map_values(|p: SourcePassage| source_line(p)),
{
    let mut r: Vec<String> = Vec::new();
    let mut i: usize = 0;
    while i < hits.len()
        invariant
            0 <= i <= hits@.len(),
            views(r@) == hits@.take(i as int).map_values(|p: SourcePassage| source_line(p)),
        decreases hits.len() - i,
    {
        let ghost before = views(r@);
        r.push(ref_line(&hits[i].ref_, &hits[i].text));
        proof {
            assert(views(r@) =~= before.push(source_line(hits@[i as int])));
            assert(hits@.take(i + 1).map_values(|p: SourcePassage| source_line(p)) =~= hits@.take(
                i as int,
            ).map_values(|p: SourcePassage| source_line(p)).push(source_line(hits@[i as int])));
        }
        i = i + 1;
    }
    proof {
        assert(hits@.take(hits@.len() as int) =~= hits@);
    }
    r
}

/// The labeled lines of the Gospel-narrative block.
pub fn narrative_lines(hits: &[NarrativePassage]) -> (r: Vec<String>)
    ensures
        views(r@) == hits@.map_values(|p: NarrativePassage| narrative_line(p)),
{
    let mut r: Vec<String> = Vec::new();
    let mut i: usize = 0;
    while i < hits.len()
        invariant
            0 <= i <= hits@.len(),
            views(r@) == hits@.take(i as int).map_values(|p: NarrativePassage| narrative_line(p)),
        decreases hits.len() - i,
    {
        let ghost before = views(r@);
        r.push(ref_line(&hits[i].ref_, &hits[i].text));
        proof {
            assert(views(r@) =~= before.push(narrative_line(hits@[i as int])));
            assert(hits@.take(i + 1).map_values(|p: NarrativePassage| narrative_line(p))
                =~= hits@.take(i as int).map_values(|p: NarrativePassage| narrative_line(p)).push(
                narrative_line(hits@[i as int]),
            ));
        }
        i = i + 1;
    }
    proof {
        assert(hits@.take(hits@.len() as int) =~= hits@);
    }
    r
}

/// The principle facets of the passages, passage by passage, in order.
pub open spec fn principle_stream(ps: Seq<Passage>) -> Seq<Seq<char>>
    decreases ps.len(),
{
    if ps.len() == 0 {
        Seq::empty()
    } else {
        principle_stream(ps.drop_last()) + views(ps.last().principles@)
    }
}

/// The first [`MAX_PRINCIPLES`] distinct non-blank trimmed principles of the stream.
pub open spec fn gather(xs: Seq<Seq<char>>) -> Seq<Seq<char>>
    decreases xs.len(),
{
    if xs.len() == 0 {
        Seq::empty()
    } else {
        let r = gather(xs.drop_last());
        let t = trim(xs.last());
        if r.len() < MAX_PRINCIPLES && t.len() > 0 && !r.contains(t) {
            r.push(t)
        } else {
            r
        }
    }
}

proof fn lemma_gather_len(xs: Seq<Seq<char>>)
    ensures
        gather(xs).len() <= MAX_PRINCIPLES,
    decreases xs.len(),
{
    if xs.len() > 0 {
        lemma_gather_len(xs.drop_last());
    }
}

fn contains_string(v: &Vec<String>, s: &String) -> (b: bool)
    ensures
        b == views(v@).contains(s@),
{
    let mut i: usize = 0;
    while i < v.len()
        invariant
            0 <= i <= v@.len(),
            forall|k: int| 0 <= k < i ==> views(v@)[k] != s@,
        decreases v.len() - i,
    {
        if crate::text::str_eq(v[i].as_str(), s.as_str()) {
            assert(views(v@)[i as int] == s@);
            return true;
        }
        i = i + 1;
    }
    false
}

/// The distinct governing principles of the retrieved passages, in retrieval order, trimmed,
/// capped at [`MAX_PRINCIPLES`].
pub fn collect_principles(passages: &[Passage]) -> (r: Vec<String>)
    ensures
        views(r@) == gather(principle_stream(passages@)),
{
    let mut out: Vec<String> = Vec::new();
    let mut i: usize = 0;
    while i < passages.len()
        invariant
            0 <= i <= passages@.len(),
            views(out@) == gather(principle_stream(passages@.take(i as int))),
        decreases passages.len() - i,
    {
        let ghost base = principle_stream(passages@.take(i as int));
        let pr = &passages[i].principles;
        proof {
            assert(passages@.take(i + 1).drop_last() =~= passages@.take(i as int));
            assert(passages@.take(i + 1).last() == passages@[i as int]);
            assert(base + views(pr@).take(0) =~= base);
        }
        let mut j: usize = 0;
        while j < pr.len()
            invariant
                0 <= j <= pr@.len(),
                *pr == passages@[i as int].principles,
                views(out@) == gather(base + views(pr@).take(j as int)),
            decreases pr.len() - j,
        {
            let ghost xs = base + views(pr@).take(j + 1);
            proof {
                assert(xs.drop_last() =~= base + views(pr@).take(j as int));
                assert(xs.last() == pr@[j as int]@);
                lemma_gather_len(base + views(pr@).take(j as int));
            }
            let t = trim_str(pr[j].as_str());
            if out.len() < MAX_PRINCIPLES && !t.as_str().is_empty() && !contains_string(&out, &t) {
                let ghost before = views(out@);
                out.push(t);
                proof {
                    assert(views(out@) =~= before.push(trim(pr@[j as int]@)));
                }
            }
            j = j + 1;
        }
        proof {
            assert(views(pr@).take(pr@.len() as int) =~= views(pr@));
        }
        i = i + 1;
    }
    proof {
        assert(passages@.take(passages@.len() as int) =~= passages@);
    }
    out
}

/// A score as JSON: the number when present, else `null`.
pub open spec fn score_json(score_bits: Option<u32>) -> Json {
    match score_bits {
        Some(b) => Json::F32(b),
        None => Json::Null,
    }
}

/// One retrieval row of the state snapshot: ref, score and move — never the text.
pub open spec fn snapshot_row(p: Passage) -> Json {
    Json::Object(
        seq![("ref"@, Json::Str(p.ref_@)), ("score"@, score_json(p.score_bits)), ("move"@, Json::Str(p.move_@))],
    )
}

/// The state snapshot of a retrieval: `{ "retrieval": [rows] }`.
pub open spec fn snapshot_json(ps: Seq<Passage>) -> Json {
    Json::Object(seq![("retrieval"@, Json::Array(ps.map_values(|p: Passage| snapshot_row(p))))])
}

/// A score as JSON: the number when present, else `null`.
pub fn score_wire(score_bits: Option<u32>) -> (w: Wire)
    ensures
        json(w) == score_json(score_bits),
{
    match score_bits {
        Some(b) => Wire::F32(b),
        None => Wire::Null,
    }
}

/// The compact JSON view of the retrieval set for the state snapshot: refs, scores, moves.
pub fn state_snapshot(passages: &[Passage]) -> (w: Wire)
    ensures
        json(w) == snapshot_json(passages@),
{
    let mut rows: Vec<Wire> = Vec::new();
    let mut i: usize = 0;
    while i < passages.len()
        invariant
            0 <= i <= passages@.len(),
            jsons(rows@) == passages@.take(i as int).map_values(|p: Passage| snapshot_row(p)),
        decreases passages.len() - i,
    {
        let p = &passages[i];
        let mut f: Vec<(String, Wire)> = Vec::new();
        obj_push(&mut f, "ref", jstring(p.ref_.clone()));
        obj_push(&mut f, "score", score_wire(p.score_bits));
        obj_push(&mut f, "move", jstring(p.move_.clone()));
        proof {
            assert(entries(f@) =~= seq![
                ("ref"@, Json::Str(p.ref_@)),
                ("score"@, score_json(p.score_bits)),
                ("move"@, Json::Str(p.move_@)),
            ]);
        }
        let row = obj(f);
        arr_push(&mut rows, row);
        proof {
            assert(passages@.take(i + 1).map_values(|p: Passage| snapshot_row(p)) =~= passages@.take(
                i as int,
            ).map_values(|p: Passage| snapshot_row(p)).push(snapshot_row(passages@[i as int])));
        }
        i = i + 1;
    }
    proof {
        assert(passages@.take(passages@.len() as int) =~= passages@);
    }
    let mut top: Vec<(String, Wire)> = Vec::new();
    obj_push(&mut top, "retrieval", arr(rows));
    proof {
        assert(entries(top@) =~= seq![
            ("retrieval"@, Json::Array(passages@.map_values(|p: Passage| snapshot_row(p)))),
        ]);
    }
    obj(top)
}

/// The low-confidence chunk's data: the leg count and the principles bridged to.
pub open spec fn low_confidence_json(legs: u8, principles: Seq<Seq<char>>) -> Json {
    Json::Object(
        seq![
            ("legs_matched"@, Json::UInt(legs as u64)),
            ("principles"@, Json::Array(principles.map_values(|s: Seq<char>| Json::Str(s)))),
        ],
    )
}

fn low_confidence_wire(legs: u8, principles: &Vec<String>) -> (w: Wire)
    ensures
        json(w) == low_confidence_json(legs, views(principles@)),
{
    let mut f: Vec<(String, Wire)> = Vec::new();
    obj_push(&mut f, "legs_matched", Wire::UInt(legs as u64));
    let list = jstr_array(principles.as_slice());
    obj_push(&mut f, "principles", list);
    proof {
        assert(principles@.map_values(|s: String| Json::Str(s@)) =~= views(principles@).map_values(
            |s: Seq<char>| Json::Str(s),
        ));
        assert(entries(f@) =~= seq![
            ("legs_matched"@, Json::UInt(legs as u64)),
            ("principles"@, Json::Array(views(principles@).map_values(|s: Seq<char>| Json::Str(s)))),
        ]);
    }
    obj(f)
}

/// One Tanakh verse on the source-text chunk: ref, text and scripture category.
pub open spec fn source_row(p: SourcePassage) -> Json {
    Json::Object(
        seq![("ref"@, Json::Str(p.ref_@)), ("text"@, Json::Str(p.text@)), ("category"@, Json::Str(p.category@))],
    )
}

/// One deed on the narrative-context chunk: ref, text, attestation and witnesses.
pub open spec fn narrative_row(p: NarrativePassage) -> Json {
    Json::Object(
        seq![
            ("ref"@, Json::Str(p.ref_@)),
            ("text"@, Json::Str(p.text@)),
            ("attestation"@, Json::Str(p.attestation@)),
            ("witnesses"@, Json::Array(p.witnesses@.map_values(|s: String| Json::Str(s@)))),
        ],
    )
}

pub open spec fn passages_json(rows: Seq<Json>) -> Json {
    Json::Object(seq![("passages"@, Json::Array(rows))])
}

fn source_wire(hits: &Vec<SourcePassage>) -> (w: Wire)
    ensures
        json(w) == passages_json(hits@.map_values(|p: SourcePassage| source_row(p))),
{
    let mut rows: Vec<Wire> = Vec::new();
    let mut i: usize = 0;
    while i < hits.len()
        invariant
            0 <= i <= hits@.len(),
            jsons(rows@) == hits@.take(i as int).map_values(|p: SourcePassage| source_row(p)),
        decreases hits.len() - i,
    {
        let p = &hits[i];
        let mut f: Vec<(String, Wire)> = Vec::new();
        obj_push(&mut f, "ref", jstring(p.ref_.clone()));
        obj_push(&mut f, "text", jstring(p.text.clone()));
        obj_push(&mut f, "category", jstring(p.category.clone()));
        proof {
            assert(entries(f@) =~= seq![
                ("ref"@, Json::Str(p.ref_@)),
                ("text"@, Json::Str(p.text@)),
                ("category"@, Json::Str(p.category@)),
            ]);
        }
        arr_push(&mut rows, obj(f));
        proof {
            assert(hits@.take(i + 1).map_values(|p: SourcePassage| source_row(p)) =~= hits@.take(
                i as int,
            ).map_values(|p: SourcePassage| source_row(p)).push(source_row(hits@[i as int])));
        }
        i = i + 1;
    }
    proof {
        assert(hits@.take(hits@.len() as int) =~= hits@);
    }
    let mut top: Vec<(String, Wire)> = Vec::new();
    obj_push(&mut top, "passages", arr(rows));
    proof {
        assert(entries(top@) =~= seq![
            ("passages"@, Json::Array(hits@.map_values(|p: SourcePassage| source_row(p)))),
        ]);
    }
    obj(top)
}

fn narrative_wire(hits: &Vec<NarrativePassage>) -> (w: Wire)
    ensures
        json(w) == passages_json(hits@.map_values(|p: NarrativePassage| narrative_row(p))),
{
    let mut rows: Vec<Wire> = Vec::new();
    let mut i: usize = 0;
    while i < hits.len()
        invariant
            0 <= i <= hits@.len(),
            jsons(rows@) == hits@.take(i as int).map_values(|p: NarrativePassage| narrative_row(p)),
        decreases hits.len() - i,
    {
        let p = &hits[i];
        let mut f: Vec<(String, Wire)> = Vec::new();
        obj_push(&mut f, "ref", jstring(p.ref_.clone()));
        obj_push(&mut f, "text", jstring(p.text.clone()));
        obj_push(&mut f, "attestation", jstring(p.attestation.clone()));
        obj_push(&mut f, "witnesses", jstr_array(p.witnesses.as_slice()));
        proof {
            assert(entries(f@) =~= seq![
                ("ref"@, Json::Str(p.ref_@)),
                ("text"@, Json::Str(p.text@)),
                ("attestation"@, Json::Str(p.attestation@)),
                ("witnesses"@, Json::Array(p.witnesses@.map_values(|s: String| Json::Str(s@)))),
            ]);
        }
        arr_push(&mut rows, obj(f));
        proof {
            assert(hits@.take(i + 1).map_values(|p: NarrativePassage| narrative_row(p)) =~= hits@.take(
                i as int,
            ).map_values(|p: NarrativePassage| narrative_row(p)).push(narrative_row(hits@[i as int])));
        }
        i = i + 1;
    }
    proof {
        assert(hits@.take(hits@.len() as int) =~= hits@);
    }
    let mut top: Vec<(String, Wire)> = Vec::new();
    obj_push(&mut top, "passages", arr(rows));
    proof {
        assert(entries(top@) =~= seq![
            ("passages"@, Json::Array(hits@.map_values(|p: NarrativePassage| narrative_row(p)))),
        ]);
    }
    obj(top)
}

/// The non-empty blocks, in order.
pub open spec fn nonempty_blocks(bs: Seq<Seq<char>>) -> Seq<Seq<char>>
    decreases bs.len(),
{
    if bs.len() == 0 {
        Seq::empty()
    } else if bs.last().len() > 0 {
        nonempty_blocks(bs.drop_last()).push(bs.last())
    } else {
        nonempty_blocks(bs.drop_last())
    }
}

/// The turn context: memory, source material, deeds, then the grounding block (his own
/// words) last, empty blocks dropped, separated by blank lines.
pub open spec fn turn_context(memory: Seq<char>, source: Seq<char>, narrative: Seq<char>, grounding: Seq<char>) -> Seq<char> {
    join(nonempty_blocks(seq![memory, source, narrative, grounding]), "\n\n"@)
}

fn compose_context(memory: &String, source: String, narrative: String, grounding: String) -> (r: String)
    ensures
        r@ == turn_context(memory@, source@, narrative@, grounding@),
{
    let mut parts: Vec<String> = Vec::new();
    let ghost bs = seq![memory@, source@, narrative@, grounding@];
    proof {
        assert(bs.take(1).drop_last() =~= bs.take(0));
        assert(bs.take(2).drop_last() =~= bs.take(1));
        assert(bs.take(3).drop_last() =~= bs.take(2));
        assert(bs.take(4).drop_last() =~= bs.take(3));
        assert(bs.take(4) =~= bs);
        assert(views(parts@) =~= nonempty_blocks(bs.take(0)));
    }
    if !memory.as_str().is_empty() {
        let ghost before = views(parts@);
        parts.push(memory.clone());
        assert(views(parts@) =~= before.push(memory@));
    }
    assert(views(parts@) =~= nonempty_blocks(bs.take(1)));
    if !source.as_str().is_empty() {
        let ghost before = views(parts@);
        parts.push(source);
        assert(views(parts@) =~= before.push(bs[1]));
    }
    assert(views(parts@) =~= nonempty_blocks(bs.take(2)));
    if !narrative.as_str().is_empty() {
        let ghost before = views(parts@);
        parts.push(narrative);
        assert(views(parts@) =~= before.push(bs[2]));
    }
    assert(views(parts@) =~= nonempty_blocks(bs.take(3)));
    if !grounding.as_str().is_empty() {
        let ghost before = views(parts@);
        parts.push(grounding);
        assert(views(parts@) =~= before.push(bs[3]));
    }
    assert(views(parts@) =~= nonempty_blocks(bs));
    join_strings(parts.as_slice(), "\n\n")
}

/// The grounding block of a covered turn: plain when grounded; on a low-confidence turn the
/// principle bridge when principles exist, else the plain hedge.
pub open spec fn grounding_for(lines: Seq<Seq<char>>, low_confidence: bool, principles: Seq<Seq<char>>) -> Seq<char> {
    if low_confidence {
        if principles.len() == 0 {
            low_confidence_block(lines)
        } else {
            principle_tier_block(lines, principles)
        }
    } else {
        grounding_block(lines)
    }
}


/// Where a turn stands: which outcome the machine waits for.
#[derive(Debug, Clone, Copy, PartialEq, Eq, Structural)]
pub enum TurnPhase {
    Admission,
    Memories,
    Retrieval,
    Supplements,
    Generation,
    Recording,
    Done,
}

/// What the runtime must do next.
#[derive(Debug)]
pub enum TurnAction {
    /// Acquire an admission permit of this cost and hold it for the rest of the turn.
    Admit(Cost),
    /// Recall the most salient memories of this scope (a failure counts as none).
    RecallMemories { scope: String, limit: usize },
    /// Retrieve the red-letter passages for the query.
    Retrieve { query: String, limit: usize },
    /// Retrieve the Tanakh and Gospel-narrative supplements (a failure counts as none).
    RetrieveSupplements { query: String, limit: usize },
    /// Generate the answer.
    Generate(GenRequest),
    /// Record the observation about the person (its outcome does not matter).
    RecordMemory { scope: String, kind: String, text: String, importance: i64, refs: Vec<String> },
    /// The turn is over: these are its events.
    Finish(Vec<AgentEvent>),
    /// The turn failed.
    Fail(OrchestratorError),
}

/// One turn in progress. Created by [`TurnMachine::start`]; each outcome the runtime feeds
/// back moves it to its next phase and yields the next action.
#[derive(Debug)]
pub struct TurnMachine {
    pub phase: TurnPhase,
    pub run_id: u128,
    pub message_id: u128,
    pub session: Session,
    pub query: String,
    pub scope: String,
    pub memory_block: String,
    pub passages: Vec<Passage>,
    pub low_confidence: bool,
    pub principles: Vec<String>,
    pub events: Vec<AgentEvent>,
}

/// The score a citation carries: the passage's, or zero.
pub open spec fn score_or_zero(score_bits: Option<u32>) -> u32 {
    match score_bits {
        Some(b) => b,
        None => 0,
    }
}

/// One citation per retrieved passage, in order.
pub open spec fn citation_views(ps: Seq<Passage>) -> Seq<EventView> {
    ps.map_values(
        |p: Passage| EventView::Citation { ref_: p.ref_@, score_bits: score_or_zero(p.score_bits), span: None },
    )
}

pub open spec fn low_confidence_name() -> Seq<char> {
    "x-jesus-twin/low-confidence"@
}

pub open spec fn source_text_name() -> Seq<char> {
    "x-jesus-twin/source-text"@
}

pub open spec fn narrative_context_name() -> Seq<char> {
    "x-jesus-twin/narrative-context"@
}

/// The events a covered retrieval adds: its citations, the state snapshot, and on a
/// low-confidence turn the honesty chunk with the leg count and principles.
pub open spec fn covered_views(ps: Seq<Passage>, legs: u8, low_confidence: bool, principles: Seq<Seq<char>>) -> Seq<EventView> {
    citation_views(ps) + seq![EventView::StateSnapshot { state: snapshot_json(ps) }] + if low_confidence {
        seq![EventView::Custom { name: low_confidence_name(), data: low_confidence_json(legs, principles) }]
    } else {
        Seq::empty()
    }
}

/// The events the supplements add: a source-text chunk when verses came back, a
/// narrative-context chunk when deeds came back, then the start of the answer message.
pub open spec fn supplement_views(srcs: Seq<SourcePassage>, nars: Seq<NarrativePassage>, message_id: u128) -> Seq<EventView> {
    (if srcs.len() > 0 {
        seq![
            EventView::Custom {
                name: source_text_name(),
                data: passages_json(srcs.map_values(|p: SourcePassage| source_row(p))),
            },
        ]
    } else {
        Seq::empty()
    }) + (if nars.len() > 0 {
        seq![
            EventView::Custom {
                name: narrative_context_name(),
                data: passages_json(nars.map_values(|p: NarrativePassage| narrative_row(p))),
            },
        ]
    } else {
        Seq::empty()
    }) + seq![EventView::TextMessageStart { message_id, role: Role::Assistant }]
}

/// The generation context of a covered turn.
pub open spec fn generation_context(
    memory_block: Seq<char>,
    srcs: Seq<SourcePassage>,
    nars: Seq<NarrativePassage>,
    ps: Seq<Passage>,
    low_confidence: bool,
    principles: Seq<Seq<char>>,
) -> Seq<char> {
    turn_context(
        memory_block,
        labeled_block(SOURCE_INSTRUCTION@, srcs.map_values(|p: SourcePassage| source_line(p)), "\n"@),
        labeled_block(NARRATIVE_INSTRUCTION@, nars.map_values(|p: NarrativePassage| narrative_line(p)), "\n"@),
        grounding_for(ps.map_values(|p: Passage| passage_line(p)), low_confidence, principles),
    )
}

/// The fields every step keeps.
pub open spec fn same_turn(a: TurnMachine, b: TurnMachine) -> bool {
    a.run_id == b.run_id && a.message_id == b.message_id && a.session == b.session
}

/// The turn's stream so far opens with its own `RunStarted`.
pub open spec fn opened(m: TurnMachine) -> bool {
    event_views(m.events@).len() > 0 && event_views(m.events@)[0] == EventView::RunStarted {
        run_id: m.run_id,
        session_id: m.session.id,
    }
}

fn ev_push(events: &mut Vec<AgentEvent>, e: AgentEvent)
    ensures
        event_views(final(events)@) == event_views(old(events)@).push(event_view(e)),
{
    let ghost v = event_view(e);
    let ghost before = event_views(events@);
    events.push(e);
    proof {
        assert(event_views(events@) =~= before.push(v));
    }
}

impl TurnMachine {
    /// Begin a turn over `session`: emit `RunStarted` and ask for admission at cost one.
    pub fn start(session: Session, run_id: u128, message_id: u128) -> (r: (TurnMachine, TurnAction))
        ensures
            r.0.phase == TurnPhase::Admission,
            r.0.run_id == run_id,
            r.0.message_id == message_id,
            r.0.session == session,
            event_views(r.0.events@) == seq![EventView::RunStarted { run_id, session_id: session.id }],
            opened(r.0),
            r.1 == TurnAction::Admit(Cost(1)),
    {
        let mut events: Vec<AgentEvent> = Vec::new();
        let sid = session.id;
        ev_push(&mut events, AgentEvent::RunStarted { run_id, session_id: sid });
        proof {
            assert(event_views(events@) =~= seq![EventView::RunStarted { run_id, session_id: session.id }]);
        }
        let m = TurnMachine {
            phase: TurnPhase::Admission,
            run_id,
            message_id,
            session,
            query: String::new(),
            scope: String::new(),
            memory_block: String::new(),
            passages: Vec::new(),
            low_confidence: false,
            principles: Vec::new(),
            events,
        };
        (m, TurnAction::Admit(Cost(1)))
    }

    /// Admission granted: find the question (the latest user turn) and recall memories of
    /// this person; with no user turn the turn fails.
    pub fn admitted(&mut self) -> (a: TurnAction)
        requires
            old(self).phase == TurnPhase::Admission,
        ensures
            same_turn(*final(self), *old(self)),
            opened(*old(self)) && final(self).phase != TurnPhase::Done ==> opened(*final(self)),
            event_views(final(self).events@) == event_views(old(self).events@),
            match latest_user(old(self).session.turns@) {
                None => final(self).phase == TurnPhase::Done && a == TurnAction::Fail(
                    OrchestratorError::NoUserMessage,
                ),
                Some(q) => {
                    &&& final(self).phase == TurnPhase::Memories
                    &&& final(self).query@ == q
                    &&& final(self).scope@ == uuid_text(memory_key(old(self).session))
                    &&& a matches TurnAction::RecallMemories { scope, limit }
                    &&& scope@ == uuid_text(memory_key(old(self).session))
                    &&& limit == MEMORY_LIMIT
                },
            },
    {
        match latest_user_message(&self.session) {
            None => {
                self.phase = TurnPhase::Done;
                TurnAction::Fail(OrchestratorError::NoUserMessage)
            },
            Some(q) => {
                self.query = q;
                self.scope = self.session.memory_scope();
                self.phase = TurnPhase::Memories;
                TurnAction::RecallMemories { scope: self.scope.clone(), limit: MEMORY_LIMIT }
            },
        }
    }

    /// Admission refused: the turn fails with the gatekeeper's reason.
    pub fn admission_failed(&mut self, reason: String) -> (a: TurnAction)
        requires
            old(self).phase == TurnPhase::Admission,
        ensures
            same_turn(*final(self), *old(self)),
            opened(*old(self)) && final(self).phase != TurnPhase::Done ==> opened(*final(self)),
            final(self).phase == TurnPhase::Done,
            event_views(final(self).events@) == event_views(old(self).events@),
            a matches TurnAction::Fail(OrchestratorError::AdmissionRejected(m)) && m@ == reason@,
    {
        self.phase = TurnPhase::Done;
        TurnAction::Fail(OrchestratorError::AdmissionRejected(reason))
    }

    /// Memories recalled (none when recall failed): keep their labeled block and retrieve.
    pub fn memories_recalled(&mut self, memories: Vec<String>) -> (a: TurnAction)
        requires
            old(self).phase == TurnPhase::Memories,
        ensures
            same_turn(*final(self), *old(self)),
            opened(*old(self)) && final(self).phase != TurnPhase::Done ==> opened(*final(self)),
            event_views(final(self).events@) == event_views(old(self).events@),
            final(self).phase == TurnPhase::Retrieval,
            final(self).query@ == old(self).query@,
            final(self).scope@ == old(self).scope@,
            final(self).memory_block@ == labeled_block(MEMORY_INSTRUCTION@, views(memories@), "\n"@),
            a matches TurnAction::Retrieve { query, limit } && query@ == old(self).query@ && limit
                == RETRIEVE_LIMIT,
    {
        self.memory_block = assemble_memory_block(memories.as_slice());
        self.phase = TurnPhase::Retrieval;
        TurnAction::Retrieve { query: self.query.clone(), limit: RETRIEVE_LIMIT }
    }

    /// Retrieval failed: the turn fails with the store's error.
    pub fn retrieval_failed(&mut self, error: String) -> (a: TurnAction)
        requires
            old(self).phase == TurnPhase::Retrieval,
        ensures
            same_turn(*final(self), *old(self)),
            opened(*old(self)) && final(self).phase != TurnPhase::Done ==> opened(*final(self)),
            final(self).phase == TurnPhase::Done,
            event_views(final(self).events@) == event_views(old(self).events@),
            a matches TurnAction::Fail(OrchestratorError::Store(m)) && m@ == error@,
    {
        self.phase = TurnPhase::Done;
        TurnAction::Fail(OrchestratorError::Store(error))
    }

    /// Retrieval done: the coverage gate classifies it. No coverage refuses and finishes
    /// before the model runs; otherwise cite every passage, snapshot the set, flag a
    /// low-confidence turn with its principles, and fetch the supplements.
    pub fn retrieved(&mut self, set: RetrievalSet) -> (a: TurnAction)
        requires
            old(self).phase == TurnPhase::Retrieval,
        ensures
            same_turn(*final(self), *old(self)),
            opened(*old(self)) && final(self).phase != TurnPhase::Done ==> opened(*final(self)),
            final(self).query@ == old(self).query@,
            final(self).scope@ == old(self).scope@,
            final(self).memory_block@ == old(self).memory_block@,
            coverage_tier(set.passages@.len(), set.top_legs_matched as nat) == Coverage::NoCoverage
                ==> {
                &&& final(self).phase == TurnPhase::Done
                &&& a matches TurnAction::Finish(evs)
                &&& event_views(evs@) == event_views(old(self).events@) + seq![
                    EventView::Refusal { reason: RefusalReason::NoCoverage },
                    EventView::RunFinished { run_id: old(self).run_id, finish: FinishReason::Refusal },
                ]
                &&& opened(*old(self)) ==> event_views(evs@)[0] == EventView::RunStarted {
                    run_id: old(self).run_id,
                    session_id: old(self).session.id,
                }
            },
            coverage_tier(set.passages@.len(), set.top_legs_matched as nat) != Coverage::NoCoverage
                ==> {
                let low = coverage_tier(set.passages@.len(), set.top_legs_matched as nat)
                    == Coverage::LowConfidence;
                let principles = if low {
                    gather(principle_stream(set.passages@))
                } else {
                    Seq::empty()
                };
                &&& final(self).phase == TurnPhase::Supplements
                &&& final(self).passages@ == set.passages@
                &&& final(self).low_confidence == low
                &&& views(final(self).principles@) == principles
                &&& event_views(final(self).events@) == event_views(old(self).events@)
                    + covered_views(set.passages@, set.top_legs_matched, low, principles)
                &&& a matches TurnAction::RetrieveSupplements { query, limit } && query@ == old(
                    self,
                ).query@ && limit == SUPP_LIMIT
            },
    {
        let gate = CoverageGate::new();
        let coverage = gate.classify(set.passages.len(), set.top_legs_matched);
        if coverage == Coverage::NoCoverage {
            let ghost before = event_views(self.events@);
            ev_push(&mut self.events, AgentEvent::Refusal { reason: RefusalReason::NoCoverage });
            ev_push(
                &mut self.events,
                AgentEvent::RunFinished { run_id: self.run_id, finish: FinishReason::Refusal },
            );
            let mut evs: Vec<AgentEvent> = Vec::new();
            std::mem::swap(&mut evs, &mut self.events);
            self.phase = TurnPhase::Done;
            proof {
                assert(event_views(evs@) =~= before + seq![
                    EventView::Refusal { reason: RefusalReason::NoCoverage },
                    EventView::RunFinished { run_id: self.run_id, finish: FinishReason::Refusal },
                ]);
            }
            return TurnAction::Finish(evs);
        }
        let low = coverage == Coverage::LowConfidence;
        let ghost e0 = event_views(self.events@);
        let ps = set.passages;
        let legs = set.top_legs_matched;
        let mut i: usize = 0;
        while i < ps.len()
            invariant
                0 <= i <= ps@.len(),
                event_views(self.events@) == e0 + citation_views(ps@.take(i as int)),
                same_turn(*self, *old(self)),
                self.query == old(self).query,
                self.scope == old(self).scope,
                self.memory_block == old(self).memory_block,
            decreases ps.len() - i,
        {
            let score = match ps[i].score_bits {
                Some(b) => b,
                None => 0,
            };
            ev_push(
                &mut self.events,
                AgentEvent::Citation { ref_: ps[i].ref_.clone(), score_bits: score, span: None },
            );
            proof {
                assert(citation_views(ps@.take(i + 1)) =~= citation_views(ps@.take(i as int)).push(
                    EventView::Citation {
                        ref_: ps@[i as int].ref_@,
                        score_bits: score_or_zero(ps@[i as int].score_bits),
                        span: None,
                    },
                ));
            }
            i = i + 1;
        }
        proof {
            assert(ps@.take(ps@.len() as int) =~= ps@);
        }
        let snapshot = state_snapshot(ps.as_slice());
        ev_push(&mut self.events, AgentEvent::StateSnapshot { state: snapshot });
        let principles = if low {
            collect_principles(ps.as_slice())
        } else {
            Vec::new()
        };
        let ghost pv = views(principles@);
        let ghost e1 = event_views(self.events@);
        if low {
            let data = low_confidence_wire(legs, &principles);
            ev_push(
                &mut self.events,
                AgentEvent::Custom { name: String::from_str("x-jesus-twin/low-confidence"), data },
            );
        }
        proof {
            if !low {
                assert(pv =~= Seq::<Seq<char>>::empty());
            }
            assert(event_views(self.events@) =~= e0 + covered_views(ps@, legs, low, pv));
        }
        self.passages = ps;
        self.low_confidence = low;
        self.principles = principles;
        self.phase = TurnPhase::Supplements;
        TurnAction::RetrieveSupplements { query: self.query.clone(), limit: SUPP_LIMIT }
    }

    /// Supplements retrieved (none when either retrieval failed): surface each corpus as its
    /// own chunk, open the answer message, and ask for generation over the labeled context.
    pub fn supplements_retrieved(
        &mut self,
        sources: Vec<SourcePassage>,
        narratives: Vec<NarrativePassage>,
    ) -> (a: TurnAction)
        requires
            old(self).phase == TurnPhase::Supplements,
        ensures
            same_turn(*final(self), *old(self)),
            opened(*old(self)) && final(self).phase != TurnPhase::Done ==> opened(*final(self)),
            final(self).phase == TurnPhase::Generation,
            final(self).query@ == old(self).query@,
            final(self).scope@ == old(self).scope@,
            final(self).passages@ == old(self).passages@,
            event_views(final(self).events@) == event_views(old(self).events@) + supplement_views(
                sources@,
                narratives@,
                old(self).message_id,
            ),
            a matches TurnAction::Generate(req) && req.system@ == SYSTEM_PROMPT@ && req.user@ == old(
                self,
            ).query@ && req.context@ == generation_context(
                old(self).memory_block@,
                sources@,
                narratives@,
                old(self).passages@,
                old(self).low_confidence,
                views(old(self).principles@),
            ),
    {
        let ghost e0 = event_views(self.events@);
        if sources.len() > 0 {
            let data = source_wire(&sources);
            ev_push(
                &mut self.events,
                AgentEvent::Custom { name: String::from_str("x-jesus-twin/source-text"), data },
            );
        }
        let ghost e1 = event_views(self.events@);
        if narratives.len() > 0 {
            let data = narrative_wire(&narratives);
            ev_push(
                &mut self.events,
                AgentEvent::Custom { name: String::from_str("x-jesus-twin/narrative-context"), data },
            );
        }
        ev_push(
            &mut self.events,
            AgentEvent::TextMessageStart { message_id: self.message_id, role: Role::Assistant },
        );
        proof {
            assert(event_views(self.events@) =~= e0 + supplement_views(sources@, narratives@, self.message_id));
        }
        let source_block = assemble_source_block(source_lines(sources.as_slice()).as_slice());
        let narrative_block = assemble_narrative_block(narrative_lines(narratives.as_slice()).as_slice());
        let lines = context_lines(self.passages.as_slice());
        let grounding = if self.low_confidence {
            if self.principles.len() == 0 {
                assemble_context_low_confidence(lines.as_slice())
            } else {
                assemble_context_principle_tier(lines.as_slice(), self.principles.as_slice())
            }
        } else {
            assemble_context(lines.as_slice())
        };
        let context = compose_context(&self.memory_block, source_block, narrative_block, grounding);
        self.phase = TurnPhase::Generation;
        TurnAction::Generate(
            GenRequest { system: String::from_str(SYSTEM_PROMPT), context, user: self.query.clone() },
        )
    }

    /// Generation failed: the turn fails with the engine's error.
    pub fn generation_failed(&mut self, error: String) -> (a: TurnAction)
        requires
            old(self).phase == TurnPhase::Generation,
        ensures
            same_turn(*final(self), *old(self)),
            opened(*old(self)) && final(self).phase != TurnPhase::Done ==> opened(*final(self)),
            final(self).phase == TurnPhase::Done,
            event_views(final(self).events@) == event_views(old(self).events@),
            a matches TurnAction::Fail(OrchestratorError::Inference(m)) && m@ == error@,
    {
        self.phase = TurnPhase::Done;
        TurnAction::Fail(OrchestratorError::Inference(error))
    }

    /// The answer came back: emit it and record what this person asked, with the verses that
    /// grounded the reply, as an observation in their scope.
    pub fn generated(&mut self, text: String) -> (a: TurnAction)
        requires
            old(self).phase == TurnPhase::Generation,
        ensures
            same_turn(*final(self), *old(self)),
            opened(*old(self)) && final(self).phase != TurnPhase::Done ==> opened(*final(self)),
            final(self).phase == TurnPhase::Recording,
            event_views(final(self).events@) == event_views(old(self).events@) + seq![
                EventView::TextMessageDelta { message_id: old(self).message_id, delta: text@ },
                EventView::TextMessageEnd { message_id: old(self).message_id },
            ],
            a matches TurnAction::RecordMemory { scope, kind, text: observation, importance, refs }
                && scope@ == old(self).scope@ && kind@ == "observation"@ && observation@ == "Asked: "@
                + old(self).query@ && importance == OBSERVATION_IMPORTANCE && views(refs@) == old(
                self,
            ).passages@.map_values(|p: Passage| p.ref_@),
    {
        let ghost e0 = event_views(self.events@);
        let mid = self.message_id;
        ev_push(&mut self.events, AgentEvent::TextMessageDelta { message_id: mid, delta: text });
        ev_push(&mut self.events, AgentEvent::TextMessageEnd { message_id: mid });
        proof {
            assert(event_views(self.events@) =~= e0 + seq![
                EventView::TextMessageDelta { message_id: mid, delta: text@ },
                EventView::TextMessageEnd { message_id: mid },
            ]);
        }
        let mut refs: Vec<String> = Vec::new();
        let mut i: usize = 0;
        while i < self.passages.len()
            invariant
                0 <= i <= self.passages@.len(),
                views(refs@) == self.passages@.take(i as int).map_values(|p: Passage| p.ref_@),
            decreases self.passages.len() - i,
        {
            let ghost before = views(refs@);
            refs.push(self.passages[i].ref_.clone());
            proof {
                assert(views(refs@) =~= before.push(self.passages@[i as int].ref_@));
                assert(self.passages@.take(i + 1).map_values(|p: Passage| p.ref_@) =~= self.passages@.take(
                    i as int,
                ).map_values(|p: Passage| p.ref_@).push(self.passages@[i as int].ref_@));
            }
            i = i + 1;
        }
        proof {
            assert(self.passages@.take(self.passages@.len() as int) =~= self.passages@);
        }
        let mut observation = String::from_str("Asked: ");
        observation.append(self.query.as_str());
        self.phase = TurnPhase::Recording;
        TurnAction::RecordMemory {
            scope: self.scope.clone(),
            kind: String::from_str("observation"),
            text: observation,
            importance: OBSERVATION_IMPORTANCE,
            refs,
        }
    }

    /// The observation is recorded (or recording failed — it never breaks the turn): finish
    /// the run normally.
    pub fn memory_recorded(&mut self) -> (a: TurnAction)
        requires
            old(self).phase == TurnPhase::Recording,
        ensures
            same_turn(*final(self), *old(self)),
            opened(*old(self)) && final(self).phase != TurnPhase::Done ==> opened(*final(self)),
            final(self).phase == TurnPhase::Done,
            a matches TurnAction::Finish(evs) && event_views(evs@) == event_views(old(self).events@)
                + seq![EventView::RunFinished { run_id: old(self).run_id, finish: FinishReason::Stop }]
                && (opened(*old(self)) ==> event_views(evs@)[0] == EventView::RunStarted {
                run_id: old(self).run_id,
                session_id: old(self).session.id,
            }),
    {
        let ghost e0 = event_views(self.events@);
        ev_push(
            &mut self.events,
            AgentEvent::RunFinished { run_id: self.run_id, finish: FinishReason::Stop },
        );
        let mut evs: Vec<AgentEvent> = Vec::new();
        std::mem::swap(&mut evs, &mut self.events);
        self.phase = TurnPhase::Done;
        proof {
            assert(event_views(evs@) =~= e0 + seq![
                EventView::RunFinished { run_id: self.run_id, finish: FinishReason::Stop },
            ]);
        }
        TurnAction::Finish(evs)
    }
}


/// The generation context never reads a passage's modern rendering, which may be a machine
/// draft: passages that agree on citation and original text give the same context lines.
pub proof fn lemma_context_uses_original_text(a: Seq<Passage>, b: Seq<Passage>)
    requires
        a.len() == b.len(),
        forall|i: int|
            0 <= i < a.len() ==> #[trigger] a[i].ref_@ == b[i].ref_@ && a[i].text_original@
                == b[i].text_original@,
    ensures
        a.map_values(|p: Passage| passage_line(p)) == b.map_values(|p: Passage| passage_line(p)),
{
    assert(a.map_values(|p: Passage| passage_line(p)) =~= b.map_values(|p: Passage| passage_line(p)));
}

/// The state snapshot carries citations, scores and moves only: passages that agree on those
/// give the same snapshot, whatever their texts.
pub proof fn lemma_snapshot_omits_text(a: Seq<Passage>, b: Seq<Passage>)
    requires
        a.len() == b.len(),
        forall|i: int|
            0 <= i < a.len() ==> #[trigger] a[i].ref_@ == b[i].ref_@ && a[i].score_bits == b[i].score_bits
                && a[i].move_@ == b[i].move_@,
    ensures
        snapshot_json(a) == snapshot_json(b),
{
    assert(a.map_values(|p: Passage| snapshot_row(p)) =~= b.map_values(|p: Passage| snapshot_row(p)));
}

proof fn lemma_join_push(parts: Seq<Seq<char>>, x: Seq<char>, sep: Seq<char>)
    ensures
        join(parts.push(x), sep) == if parts.len() == 0 {
            x
        } else {
            join(parts, sep) + sep + x
        },
{
    assert(parts.push(x).drop_last() =~= parts);
    if parts.len() == 0 {
        assert(parts.push(x)[0] == x);
    }
}

/// The grounding block (his own words) comes last in the turn context, the position of most
/// attention: the context is the other non-empty blocks, a blank line, then the grounding.
pub proof fn lemma_grounding_comes_last(memory: Seq<char>, source: Seq<char>, narrative: Seq<char>, grounding: Seq<char>)
    requires
        grounding.len() > 0,
    ensures
        turn_context(memory, source, narrative, grounding) == if nonempty_blocks(
            seq![memory, source, narrative],
        ).len() == 0 {
            grounding
        } else {
            join(nonempty_blocks(seq![memory, source, narrative]), "\n\n"@) + "\n\n"@ + grounding
        },
{
    let bs = seq![memory, source, narrative, grounding];
    assert(bs.drop_last() =~= seq![memory, source, narrative]);
    assert(bs.last() == grounding);
    lemma_join_push(nonempty_blocks(seq![memory, source, narrative]), grounding, "\n\n"@);
}

/// A low-confidence turn whose passages carry principles bridges to them: the generation
/// context ends with the principle addendum naming the principles, joined by `"; "`, and
/// every collected principle occurs in the context handed to the model.
pub proof fn lemma_low_confidence_names_every_principle(
    memory_block: Seq<char>,
    srcs: Seq<SourcePassage>,
    nars: Seq<NarrativePassage>,
    ps: Seq<Passage>,
    principles: Seq<Seq<char>>,
)
    requires
        ps.len() > 0,
        principles.len() > 0,
    ensures
        exists|pre: Seq<char>|
            generation_context(memory_block, srcs, nars, ps, true, principles) == pre + PRINCIPLE_ADDENDUM_HEAD@
                + join(principles, "; "@) + PRINCIPLE_ADDENDUM_TAIL@,
        forall|i: int|
            0 <= i < principles.len() ==> contains(
                generation_context(memory_block, srcs, nars, ps, true, principles),
                #[trigger] principles[i],
            ),
{
    let lines = ps.map_values(|p: Passage| passage_line(p));
    let g = grounding_for(lines, true, principles);
    let base = grounding_block(lines) + "\n\n"@;
    let list = join(principles, "; "@);
    let tail = PRINCIPLE_ADDENDUM_TAIL@;
    assert(g == base + PRINCIPLE_ADDENDUM_HEAD@ + list + tail);
    reveal_strlit("\n\n");
    assert(base.len() > 0);
    assert(g.len() > 0);
    let source = labeled_block(SOURCE_INSTRUCTION@, srcs.map_values(|p: SourcePassage| source_line(p)), "\n"@);
    let narrative = labeled_block(
        NARRATIVE_INSTRUCTION@,
        nars.map_values(|p: NarrativePassage| narrative_line(p)),
        "\n"@,
    );
    lemma_grounding_comes_last(memory_block, source, narrative, g);
    let ctx = generation_context(memory_block, srcs, nars, ps, true, principles);
    let front = if nonempty_blocks(seq![memory_block, source, narrative]).len() == 0 {
        Seq::<char>::empty()
    } else {
        join(nonempty_blocks(seq![memory_block, source, narrative]), "\n\n"@) + "\n\n"@
    };
    let pre = front + base;
    assert(ctx =~= pre + PRINCIPLE_ADDENDUM_HEAD@ + list + tail);
    assert forall|i: int| 0 <= i < principles.len() implies contains(ctx, #[trigger] principles[i]) by {
        lemma_join_occurs(principles, "; "@, i);
        lemma_occurs_within(pre + PRINCIPLE_ADDENDUM_HEAD@, list, tail, principles[i], join_offset(principles, "; "@, i));
    }
}

/// Whether a stream carries the low-confidence chunk.
pub open spec fn has_low_confidence_chunk(evs: Seq<EventView>) -> bool {
    exists|i: int|
        0 <= i < evs.len() && (#[trigger] evs[i] matches EventView::Custom { name, .. } && name
            == low_confidence_name())
}

/// A covered turn flags low confidence exactly when fewer than two retrieval legs agreed: two
/// or more legs ground the answer with no low-confidence chunk, a single leg adds one.
pub proof fn lemma_low_confidence_chunk_iff_one_leg(ps: Seq<Passage>, legs: u8, principles: Seq<Seq<char>>)
    requires
        ps.len() > 0,
    ensures
        has_low_confidence_chunk(
            covered_views(ps, legs, coverage_tier(ps.len(), legs as nat) == Coverage::LowConfidence, principles),
        ) <==> legs < 2,
{
    let low = coverage_tier(ps.len(), legs as nat) == Coverage::LowConfidence;
    let evs = covered_views(ps, legs, low, principles);
    let n = ps.len() as int;
    assert(evs[n] == EventView::StateSnapshot { state: snapshot_json(ps) });
    if legs < 2 {
        assert(evs[n + 1] == EventView::Custom { name: low_confidence_name(), data: low_confidence_json(legs, principles) });
    } else {
        assert(evs.len() == n + 1);
        assert forall|i: int| 0 <= i < evs.len() implies !(#[trigger] evs[i] matches EventView::Custom { name, .. }
            && name == low_confidence_name()) by {
            if i < n {
                assert(evs[i] == citation_views(ps)[i]);
            }
        }
    }
}

} // verus!
