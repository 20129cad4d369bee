use jesus_twin::calibration::{
    distribution, eval_line, eval_query, eval_sets, summary_line, tally, EvalLine,
};
use jesus_twin::text::usize_text;
use jesus_twin::corpus::{
    draft_applies, draft_row, jsonl_records, tag_applies, tag_row, tanakh_translation, DRAFT_SYSTEM,
};
use jesus_twin::openai::error_body;
use jesus_twin::tagging::tagging_instruction;
use jesus_twin::wire::Wire;
use serde_json::Value;

fn to_json(w: &Wire) -> Value {
    match w {
        Wire::Null => Value::Null,
        Wire::Bool(b) => Value::Bool(*b),
        Wire::Str(s) => Value::String(s.clone()),
        Wire::Int(i) => Value::from(*i),
        Wire::UInt(u) => Value::from(*u),
        Wire::F32(b) => Value::from(f32::from_bits(*b)),
        Wire::Number(s) => serde_json::from_str(s).unwrap_or(Value::Null),
        Wire::Array(v) => Value::Array(v.iter().map(to_json).collect()),
        Wire::Object(es) => {
            let mut m = serde_json::Map::new();
            for (k, v) in es {
                m.insert(k.clone(), to_json(v));
            }
            Value::Object(m)
        }
    }
}

fn from_json(v: &Value) -> Wire {
    match v {
        Value::Null => Wire::Null,
        Value::Bool(b) => Wire::Bool(*b),
        Value::String(s) => Wire::Str(s.clone()),
        Value::Number(n) => Wire::Number(n.to_string()),
        Value::Array(a) => Wire::Array(a.iter().map(from_json).collect()),
        Value::Object(m) => Wire::Object(m.iter().map(|(k, v)| (k.clone(), from_json(v))).collect()),
    }
}

#[test]
fn jsonl_records_skip_blank_lines_and_keep_numbers() {
    let recs = jsonl_records("{\"a\":1}\n\n  \r\n{\"b\":2}\r\n");
    assert_eq!(recs, vec![(1, "{\"a\":1}".to_string()), (4, "{\"b\":2}".to_string())]);
    assert!(jsonl_records("").is_empty());
}

#[test]
fn sidecar_rows_apply_only_with_content() {
    assert!(!draft_applies("   "));
    assert!(draft_applies(" Give back. "));
    assert!(!tag_applies(&Vec::new(), &Vec::new()));
    assert!(tag_applies(&vec!["grief".to_string()], &Vec::new()));
    assert_eq!(tanakh_translation(String::new()), "JPS 1917");
    assert_eq!(tanakh_translation("KJV".into()), "KJV");
}

#[test]
fn sidecar_rows_are_flagged() {
    let d = to_json(&draft_row("wj-1".into(), "Mark 12:17".into(), "  Pay your taxes. "));
    assert_eq!(d["text_modern"], "Pay your taxes.");
    assert_eq!(d["machine_draft"], true);
    let t = to_json(&tag_row("wj-1".into(), "Mark 12:17".into(), &vec!["money/provision".into()], &vec!["Give back.".into()]));
    assert_eq!(t["domains"][0], "money/provision");
    assert_eq!(t["principles"][0], "Give back.");
    assert_eq!(t["machine_tagged"], true);
    assert!(DRAFT_SYSTEM.starts_with("Rewrite the given saying"));
}

#[test]
fn tagging_instruction_lists_the_taxonomy() {
    let s = tagging_instruction();
    assert!(s.contains("Choose domains ONLY from this list: money/provision, fear/anxiety, grief,"));
    assert!(s.contains("temptation, death. State one short principle"));
    assert!(s.ends_with("DOMAINS: <comma-separated domains from the list>\nPRINCIPLE: <one short sentence>"));
}

#[test]
fn eval_records_use_either_query_field() {
    let a = from_json(&serde_json::from_str(r#"{"user_query":"why pray","query":"x"}"#).unwrap());
    assert_eq!(eval_query(&a), "why pray");
    let b = from_json(&serde_json::from_str(r#"{"id":"r1","query":"coins"}"#).unwrap());
    assert_eq!(eval_query(&b), "coins");
    let c = from_json(&serde_json::from_str(r#"{"user_query":7,"query":"x"}"#).unwrap());
    assert_eq!(eval_query(&c), "");
    assert_eq!(eval_sets().len(), 4);
    assert_eq!(eval_sets()[2], ("method-application", "method-application.jsonl"));
}

#[test]
fn calibration_summary_counts_leg_agreement() {
    let mut dist = std::collections::BTreeMap::new();
    for legs in [2, 1, 2, 0, 2] {
        tally(&mut dist, legs);
    }
    assert_eq!(dist.get(&2), Some(&3));
    assert_eq!(distribution(&dist), vec![(0, 1), (1, 1), (2, 3)]);
    assert_eq!(
        summary_line("grounding", 5, &distribution(&dist)),
        format!("{:<20} n={:<3} legs_matched: [0leg=1 1leg=1 2leg=3]", "grounding", 5)
    );
    assert_eq!(summary_line("method-application", 1234, &[]), format!("{:<20} n={:<3} legs_matched: []", "method-application", 1234));
    assert_eq!(usize_text(0), "0");
    assert_eq!(usize_text(907), "907");
}

#[test]
fn error_body_shape() {
    let v = to_json(&error_body("no user message in request"));
    assert_eq!(v["error"]["message"], "no user message in request");
    assert_eq!(v["error"]["type"], "request_error");
}

#[test]
fn eval_lines_give_their_query_or_stop() {
    match eval_line(r#"{"id": "g-1", "user_query": "Should I pay taxes?"}"#) {
        EvalLine::Query { record, query } => {
            assert_eq!(query, "Should I pay taxes?");
            assert_eq!(to_json(&record)["id"], "g-1");
        }
        other => panic!("expected a query, got {other:?}"),
    }
    match eval_line(r#"{"query": "What of prayer?", "id": 7}"#) {
        EvalLine::Query { query, .. } => assert_eq!(query, "What of prayer?"),
        other => panic!("expected a query, got {other:?}"),
    }
    assert!(matches!(eval_line(r#"{"id": 3, "query": ""}"#), EvalLine::NoQuery));
    assert!(matches!(eval_line(r#"{"id": 3}"#), EvalLine::NoQuery));
    assert!(matches!(eval_line("not json at all"), EvalLine::NotJson));
    assert!(matches!(eval_line(r#"{"user_query": "unterminated"#), EvalLine::NotJson));
}
