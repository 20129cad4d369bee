use serde_json::Value;
use jesus_twin::admission::Cost;
use jesus_twin::agent::{AgentErrorKind, OrchestratorError};
use jesus_twin::event::{AgentEvent, FinishReason, RefusalReason, Role};
use jesus_twin::inference::{Engine, MockEngine};
use jesus_twin::orchestrator::{
    collect_principles, context_lines, latest_user_message, narrative_lines, source_lines,
    state_snapshot, TurnAction, TurnMachine, TurnPhase, MEMORY_LIMIT, RETRIEVE_LIMIT, SUPP_LIMIT,
};
use jesus_twin::prompt::{CONTEXT_INSTRUCTION, NARRATIVE_INSTRUCTION, SOURCE_INSTRUCTION, SYSTEM_PROMPT};
use jesus_twin::retrieve::{NarrativePassage, Passage, RetrievalSet, SourcePassage};
use jesus_twin::session::{Session, Turn};
use jesus_twin::wire::Wire;

fn to_json(w: &Wire) -> serde_json::Value {
    match w {
        Wire::Null => Value::Null,
        Wire::Bool(b) => Value::Bool(*b),
        Wire::Str(s) => Value::String(s.clone()),
        Wire::Int(i) => Value::from(*i),
        Wire::UInt(u) => Value::from(*u),
        Wire::F32(b) => Value::from(f32::from_bits(*b)),
        Wire::Number(s) => serde_json::from_str(s).unwrap_or(Value::Null),
        Wire::Array(v) => Value::Array(v.iter().map(to_json).collect()),
        Wire::Object(es) => {
            let mut m = serde_json::Map::new();
            for (k, v) in es {
                m.insert(k.clone(), to_json(v));
            }
            Value::Object(m)
        }
    }
}

fn passage(id: &str, r: &str, text: &str, principles: &[&str]) -> Passage {
    Passage {
        id: id.into(),
        ref_: r.into(),
        book_author: "Mark".into(),
        text_original: text.into(),
        text_modern: String::new(),
        context: String::new(),
        location: String::new(),
        occasion: String::new(),
        move_: String::new(),
        translation: String::new(),
        domains: Vec::new(),
        principles: principles.iter().map(|s| s.to_string()).collect(),
        score_bits: Some(0.03f32.to_bits()),
    }
}

#[test]
fn display_uses_original_not_modern() {
    let mut p = passage(
        "wj-1",
        "Mark 12:17",
        "Render to Caesar the things that are Caesar's.",
        &["Trust the Father's provision over anxious striving."],
    );
    p.text_modern = "MACHINE_DRAFT_SENTINEL give the government what is theirs".into();
    let set = RetrievalSet { passages: vec![p], top_legs_matched: 2 };
    let lines = context_lines(&set.passages).join("\n");
    assert!(lines.contains("Render to Caesar"), "must show the original text");
    assert!(
        !lines.contains("MACHINE_DRAFT_SENTINEL"),
        "machine-draft text_modern must NEVER reach the display/generation context"
    );
    let snap = to_json(&state_snapshot(&set.passages)).to_string();
    assert!(!snap.contains("MACHINE_DRAFT_SENTINEL"));
}

fn session_with(query: &str) -> Session {
    Session::new(7).with_turn(Turn::new(Role::User, query))
}

/// Drive a turn to its end, standing in for the runtime: admission granted, no memories,
/// `set` retrieved, no supplements, the mock engine generating, the record succeeding.
fn run_turn(session: Session, set: RetrievalSet) -> Result<Vec<AgentEvent>, OrchestratorError> {
    let (mut m, mut action) = TurnMachine::start(session, 1, 2);
    loop {
        action = match action {
            TurnAction::Admit(cost) => {
                assert_eq!(cost, Cost(1));
                m.admitted()
            }
            TurnAction::RecallMemories { limit, .. } => {
                assert_eq!(limit, MEMORY_LIMIT);
                m.memories_recalled(Vec::new())
            }
            TurnAction::Retrieve { limit, .. } => {
                assert_eq!(limit, RETRIEVE_LIMIT);
                m.retrieved(RetrievalSet { passages: set.passages.clone(), top_legs_matched: set.top_legs_matched })
            }
            TurnAction::RetrieveSupplements { limit, .. } => {
                assert_eq!(limit, SUPP_LIMIT);
                m.supplements_retrieved(Vec::new(), Vec::new())
            }
            TurnAction::Generate(req) => match MockEngine::new().generate(&req) {
                Ok(text) => m.generated(text),
                Err(e) => m.generation_failed(e.message()),
            },
            TurnAction::RecordMemory { .. } => m.memory_recorded(),
            TurnAction::Finish(events) => return Ok(events),
            TurnAction::Fail(e) => return Err(e),
        };
    }
}

fn one_saying(legs: u8) -> RetrievalSet {
    RetrievalSet {
        passages: vec![passage(
            "saying-1",
            "Mark 12:29-31",
            "Hear, Israel...",
            &["Love of God and neighbor is the whole of the law."],
        )],
        top_legs_matched: legs,
    }
}

#[test]
fn tier1_two_legs_emits_no_low_confidence_chunk() {
    let events = run_turn(session_with("the greatest commandment"), one_saying(2)).unwrap();
    assert!(events.iter().any(|e| matches!(e, AgentEvent::Citation { .. })), "Tier 1 still cites");
    assert!(
        !events.iter().any(|e| matches!(e, AgentEvent::Custom { .. })),
        "two agreeing legs must NOT emit the low-confidence chunk"
    );
    assert!(matches!(events.first(), Some(AgentEvent::RunStarted { run_id: 1, session_id: 7 })));
    assert!(matches!(events.last(), Some(AgentEvent::RunFinished { finish: FinishReason::Stop, .. })));
}

#[test]
fn tier2_one_leg_emits_low_confidence_chunk() {
    let events = run_turn(session_with("how do I handle money anxiety"), one_saying(1)).unwrap();
    let chunk = events.iter().find_map(|e| match e {
        AgentEvent::Custom { name, data } => Some((name.clone(), to_json(data))),
        _ => None,
    });
    let (name, data) = chunk.expect("Tier 2 emits a custom chunk");
    assert_eq!(name, "x-jesus-twin/low-confidence");
    assert_eq!(data["legs_matched"], serde_json::Value::from(1u64));
    assert_eq!(
        data["principles"],
        serde_json::Value::Array(vec!["Love of God and neighbor is the whole of the law.".into()])
    );
    assert!(events.iter().any(|e| matches!(e, AgentEvent::TextMessageDelta { .. })));
    assert!(!events.iter().any(|e| matches!(e, AgentEvent::Refusal { .. })));
}

#[test]
fn out_of_corpus_query_refuses_before_generation() {
    let events = run_turn(session_with("what about cryptocurrency"), RetrievalSet::empty()).unwrap();
    assert!(events
        .iter()
        .any(|e| matches!(e, AgentEvent::Refusal { reason: RefusalReason::NoCoverage })));
    assert!(matches!(events.last(), Some(AgentEvent::RunFinished { finish: FinishReason::Refusal, .. })));
    assert!(!events.iter().any(|e| matches!(e, AgentEvent::TextMessageDelta { .. })));
    assert!(!events.iter().any(|e| matches!(e, AgentEvent::Citation { .. })));
    assert_eq!(events.len(), 3);
}

#[test]
fn session_without_user_message_errors() {
    let err = run_turn(Session::new(7), one_saying(2)).unwrap_err();
    assert!(matches!(err, OrchestratorError::NoUserMessage));
    assert_eq!(err.to_agent_error().kind, AgentErrorKind::BadRequest);
    assert_eq!(err.message(), "no user message in session");
}

#[test]
fn covered_turn_generates_grounded_text_with_the_fixed_system_prompt() {
    let (mut m, _) = TurnMachine::start(session_with("render to Caesar"), 1, 2);
    let _ = m.admitted();
    let _ = m.memories_recalled(vec!["Asked: earlier".to_string()]);
    let _ = m.retrieved(one_saying(2));
    let src = SourcePassage {
        ref_: "Deut 8:3".into(),
        text: "Man does not live on bread alone.".into(),
        book: "Deuteronomy".into(),
        category: "torah".into(),
        translation: "JPS".into(),
        score_bits: None,
    };
    let nar = NarrativePassage {
        ref_: "Matthew 4:1-2".into(),
        text: "He fasted forty days.".into(),
        book: "Matthew".into(),
        attestation: "multiply".into(),
        witnesses: vec!["Matthew".into(), "Luke".into()],
        score_bits: None,
    };
    let action = m.supplements_retrieved(vec![src], vec![nar]);
    assert_eq!(m.phase, TurnPhase::Generation);
    let TurnAction::Generate(req) = action else { panic!("expected generation") };
    assert_eq!(req.system, SYSTEM_PROMPT);
    assert_eq!(req.user, "render to Caesar");
    let mem = req.context.find("Asked: earlier").unwrap();
    let source = req.context.find(SOURCE_INSTRUCTION).unwrap();
    let narrative = req.context.find(NARRATIVE_INSTRUCTION).unwrap();
    let grounding = req.context.find(CONTEXT_INSTRUCTION).unwrap();
    assert!(mem < source && source < narrative && narrative < grounding, "grounding comes last");
    assert!(req.context.ends_with("Mark 12:29-31: Hear, Israel..."));
    let names: Vec<&str> = m
        .events
        .iter()
        .filter_map(|e| match e {
            AgentEvent::Custom { name, .. } => Some(name.as_str()),
            _ => None,
        })
        .collect();
    assert_eq!(names, vec!["x-jesus-twin/source-text", "x-jesus-twin/narrative-context"]);
    assert!(matches!(m.events.last(), Some(AgentEvent::TextMessageStart { message_id: 2, role: Role::Assistant })));
    let g = m.generated("answer".into());
    match g {
        TurnAction::RecordMemory { text, importance, refs, kind, .. } => {
            assert_eq!(text, "Asked: render to Caesar");
            assert_eq!(kind, "observation");
            assert_eq!(importance, 5);
            assert_eq!(refs, vec!["Mark 12:29-31"]);
        }
        _ => panic!("expected the observation"),
    }
}

#[test]
fn failures_end_the_turn_with_their_error() {
    let (mut m, _) = TurnMachine::start(session_with("q"), 1, 2);
    match m.admission_failed("admission rejected by the gatekeeper".into()) {
        TurnAction::Fail(e) => assert_eq!(e.to_agent_error().kind, AgentErrorKind::Overloaded),
        _ => panic!(),
    }
    assert_eq!(m.phase, TurnPhase::Done);
    let (mut m, _) = TurnMachine::start(session_with("q"), 1, 2);
    let _ = m.admitted();
    let _ = m.memories_recalled(Vec::new());
    match m.retrieval_failed("db down".into()) {
        TurnAction::Fail(e) => assert_eq!(e.message(), "store error: db down"),
        _ => panic!(),
    }
}

#[test]
fn latest_user_message_is_the_last_user_turn() {
    let s = Session::new(1)
        .with_turn(Turn::new(Role::User, "first"))
        .with_turn(Turn::new(Role::User, "second"))
        .with_turn(Turn::new(Role::Assistant, "reply"));
    assert_eq!(latest_user_message(&s), Some("second".to_string()));
    assert_eq!(latest_user_message(&Session::new(1)), None);
}

#[test]
fn collect_principles_is_distinct_trimmed_and_capped() {
    let ps = vec![
        passage("1", "A", "a", &["  Forgive. ", "", "Trust."]),
        passage("2", "B", "b", &["Forgive.", "Pray.", "Give.", "Serve."]),
    ];
    assert_eq!(collect_principles(&ps), vec!["Forgive.", "Trust.", "Pray."]);
}

#[test]
fn supplementary_lines_are_ref_colon_text() {
    let src = SourcePassage {
        ref_: "Isaiah 61:1".into(),
        text: "The spirit is upon me".into(),
        book: "Isaiah".into(),
        category: "prophets".into(),
        translation: String::new(),
        score_bits: None,
    };
    assert_eq!(source_lines(&[src]), vec!["Isaiah 61:1: The spirit is upon me"]);
    let nar = NarrativePassage {
        ref_: "Mark 1:9".into(),
        text: "He was baptized".into(),
        book: "Mark".into(),
        attestation: "single".into(),
        witnesses: Vec::new(),
        score_bits: None,
    };
    assert_eq!(narrative_lines(&[nar]), vec!["Mark 1:9: He was baptized"]);
}

#[test]
fn snapshot_lists_ref_score_and_move() {
    let mut p = passage("1", "Mark 12:17", "x", &[]);
    p.move_ = "M02".into();
    p.score_bits = None;
    let v = to_json(&state_snapshot(&[p]));
    assert_eq!(v["retrieval"][0]["ref"], "Mark 12:17");
    assert_eq!(v["retrieval"][0]["move"], "M02");
    assert!(v["retrieval"][0]["score"].is_null());
}
