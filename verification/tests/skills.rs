use serde_json::Value;
use jesus_twin::builtins::{
    arg_str, find_by_move_result, lookup_saying_result, mindmap_result, no_saying_at,
    parallels_result, register_builtins, render_modern_request, render_modern_result,
    skill_args, string_param, FindByMove, LookupSaying, Mindmap, Parallels, RenderModern,
    RENDER_SYSTEM,
};
use jesus_twin::mindmap::project_topic;
use jesus_twin::retrieve::Passage;
use jesus_twin::skills::{
    decision_outcome, Authorizer, AutoAllowReadOnly, Decision, HumanCheckpoint, Registry,
    RiskClass, SkillError, SkillSpec,
};
use jesus_twin::wire::Wire;

fn to_json(w: &Wire) -> serde_json::Value {
    match w {
        Wire::Null => Value::Null,
        Wire::Bool(b) => Value::Bool(*b),
        Wire::Str(s) => Value::String(s.clone()),
        Wire::Int(i) => Value::from(*i),
        Wire::UInt(u) => Value::from(*u),
        Wire::F32(b) => Value::from(f32::from_bits(*b)),
        Wire::Number(s) => serde_json::from_str(s).unwrap_or(Value::Null),
        Wire::Array(v) => Value::Array(v.iter().map(to_json).collect()),
        Wire::Object(es) => {
            let mut m = serde_json::Map::new();
            for (k, v) in es {
                m.insert(k.clone(), to_json(v));
            }
            Value::Object(m)
        }
    }
}

fn obj(pairs: &[(&str, Wire)]) -> Wire {
    Wire::Object(pairs.iter().map(|(k, v)| (k.to_string(), dup(v))).collect())
}

fn dup(w: &Wire) -> Wire {
    w.duplicate()
}

fn caesar() -> Passage {
    Passage {
        id: "wj-1".into(),
        ref_: "Mark 12:17".into(),
        book_author: "Mark".into(),
        text_original: "Give to Caesar what is Caesar's.".into(),
        text_modern: String::new(),
        context: String::new(),
        location: String::new(),
        occasion: String::new(),
        move_: "M02".into(),
        translation: String::new(),
        domains: Vec::new(),
        principles: Vec::new(),
        score_bits: Some(8.8f32.to_bits()),
    }
}

#[test]
fn read_only_default_allows_reads_denies_the_rest() {
    let az = AutoAllowReadOnly;
    assert_eq!(az.authorize("lookup", RiskClass::ReadOnly), Decision::Allow);
    assert!(matches!(az.authorize("send", RiskClass::Outbound), Decision::Deny(_)));
    assert!(matches!(az.authorize("rm", RiskClass::Irreversible), Decision::Deny(_)));
}

#[test]
fn human_checkpoint_routes_risky_to_the_prompt() {
    let approve_all = HumanCheckpoint::new(|_, _| true);
    assert_eq!(approve_all.authorize("send", RiskClass::Outbound), Decision::Allow);

    let deny_all = HumanCheckpoint::new(|_, _| false);
    assert!(matches!(deny_all.authorize("send", RiskClass::Outbound), Decision::Deny(_)));
    assert_eq!(deny_all.authorize("lookup", RiskClass::ReadOnly), Decision::Allow);
}

#[test]
fn denial_reasons_name_the_skill_and_risk() {
    assert_eq!(
        AutoAllowReadOnly.authorize("send", RiskClass::Outbound),
        Decision::Deny("skill 'send' is Outbound and no approval channel is configured".into())
    );
    let deny_all = HumanCheckpoint::new(|_, _| false);
    assert_eq!(
        deny_all.authorize("rm", RiskClass::Irreversible),
        Decision::Deny("human declined the Irreversible skill 'rm'".into())
    );
}

#[test]
fn reads_never_reach_the_prompt() {
    let panics = HumanCheckpoint::new(|_, _| panic!("prompted for a read"));
    assert_eq!(panics.authorize("lookup", RiskClass::ReadOnly), Decision::Allow);
}

#[test]
fn decision_outcome_maps_denial_to_not_authorized() {
    assert_eq!(decision_outcome(Decision::Allow), Ok(()));
    assert_eq!(
        decision_outcome(Decision::Deny("no".into())),
        Err(SkillError::NotAuthorized("no".into()))
    );
}

#[test]
fn skill_error_messages() {
    assert_eq!(SkillError::Unknown("x".into()).message(), "unknown skill: x");
    assert_eq!(SkillError::InvalidArgs("y".into()).message(), "invalid arguments: y");
    assert_eq!(SkillError::Execution("z".into()).message(), "execution failed: z");
    assert_eq!(SkillError::NotAuthorized("w".into()).message(), "not authorized: w");
}

fn danger() -> SkillSpec {
    SkillSpec {
        name: "send_message".into(),
        description: "Sends a message externally (outbound).".into(),
        risk: RiskClass::Outbound,
        schema: obj(&[("type", Wire::Str("object".into()))]),
    }
}

#[test]
fn lists_builtin_skills() {
    let reg = register_builtins(Registry::new());
    let names = reg.names();
    for expected in ["lookup_saying", "find_by_move", "parallels", "render_modern"] {
        assert!(names.iter().any(|n| n == expected), "missing skill: {expected}");
    }
    assert_eq!(
        names,
        vec!["find_by_move", "lookup_saying", "mindmap", "parallels", "render_modern"]
    );
}

#[test]
fn unknown_skill_errors() {
    let reg = register_builtins(Registry::new());
    assert!(matches!(reg.authorize_invocation("nope"), Err(SkillError::Unknown(n)) if n == "nope"));
}

#[test]
fn outbound_skill_is_denied_by_default_policy() {
    let reg = register_builtins(Registry::new()).with(danger());
    assert!(matches!(
        reg.authorize_invocation("send_message"),
        Err(SkillError::NotAuthorized(_))
    ));
    assert!(reg.authorize_invocation("lookup_saying").is_ok());
}

struct ApproveAll;

impl Authorizer for ApproveAll {
    fn authorize(&self, _skill: &str, _risk: RiskClass) -> Decision {
        Decision::Allow
    }
}

#[test]
fn human_checkpoint_can_allow_outbound() {
    let reg = Registry::new().with_authorizer(ApproveAll).with(danger());
    let s = reg.authorize_invocation("send_message").unwrap();
    assert_eq!(s.name, "send_message");
    let reg2 = Registry::new().with_authorizer(HumanCheckpoint::new(|_, _| true)).with(danger());
    assert!(reg2.authorize_invocation("send_message").is_ok());
}

#[test]
fn re_registering_a_name_replaces_it() {
    let mut other = danger();
    other.description = "second".into();
    let reg = Registry::new().with(danger()).with(other);
    assert_eq!(reg.names(), vec!["send_message"]);
    assert_eq!(reg.get("send_message").unwrap().description, "second");
    assert!(reg.get("missing").is_none());
}

#[test]
fn tool_specs_are_openai_functions_in_name_order() {
    let reg = register_builtins(Registry::new());
    let specs: Vec<serde_json::Value> = reg.tool_specs().iter().map(to_json).collect();
    assert_eq!(specs.len(), 5);
    assert_eq!(specs[0]["type"], "function");
    assert_eq!(specs[0]["function"]["name"], "find_by_move");
    assert_eq!(specs[1]["function"]["name"], "lookup_saying");
    assert_eq!(specs[1]["function"]["parameters"]["required"][0], "ref");
    assert_eq!(
        specs[1]["function"]["parameters"]["properties"]["ref"]["type"],
        "string"
    );
    assert_eq!(reg.schemas().len(), 5);
}

#[test]
fn builtins_are_read_only() {
    for d in [
        LookupSaying.descriptor(),
        FindByMove.descriptor(),
        Parallels.descriptor(),
        RenderModern.descriptor(),
        Mindmap.descriptor(),
    ] {
        assert_eq!(d.risk, RiskClass::ReadOnly);
    }
    assert_eq!(RiskClass::Irreversible.name(), "Irreversible");
}

#[test]
fn string_param_schema_shape() {
    let v = to_json(&string_param("topic", "A topic."));
    assert_eq!(v["type"], "object");
    assert_eq!(v["properties"]["topic"]["description"], "A topic.");
    assert_eq!(v["required"], serde_json::Value::Array(vec!["topic".into()]));
}

#[test]
fn missing_arg_is_invalid() {
    let args = obj(&[]);
    assert_eq!(
        arg_str(&args, "ref"),
        Err(SkillError::InvalidArgs("missing string argument 'ref'".into()))
    );
    let blank = obj(&[("ref", Wire::Str("   ".into()))]);
    assert!(matches!(arg_str(&blank, "ref"), Err(SkillError::InvalidArgs(_))));
    let number = obj(&[("ref", Wire::UInt(3))]);
    assert!(matches!(arg_str(&number, "ref"), Err(SkillError::InvalidArgs(_))));
    let ok = obj(&[("ref", Wire::Str(" Mark 12:17 ".into()))]);
    assert_eq!(arg_str(&ok, "ref"), Ok(" Mark 12:17 ".to_string()));
}

#[test]
fn lookup_saying_returns_the_cited_line() {
    let out = to_json(&lookup_saying_result("Mark 12:17".into(), Some(caesar())));
    assert_eq!(out["ref"], "Mark 12:17");
    assert!(out["text_original"].as_str().unwrap().contains("Caesar"));
    assert_eq!(out["move"], "M02");
    let missing = to_json(&lookup_saying_result("John 99:1".into(), None));
    assert_eq!(missing["ref"], "John 99:1");
    assert_eq!(missing["found"], false);
}

#[test]
fn find_by_move_lists_tagged_sayings() {
    let out = to_json(&find_by_move_result("M02".into(), &[caesar()]));
    assert_eq!(out["count"], 1);
    assert_eq!(out["move"], "M02");
    assert_eq!(out["sayings"][0]["ref"], "Mark 12:17");
    let none = to_json(&find_by_move_result("M09".into(), &[]));
    assert_eq!(none["count"], 0);
}

#[test]
fn parallels_lists_related_with_scores() {
    let out = to_json(&parallels_result("coin".into(), &[caesar()]));
    assert_eq!(out["query"], "coin");
    assert_eq!(out["related"][0]["ref"], "Mark 12:17");
    assert_eq!(out["related"][0]["score"], serde_json::Value::from(8.8f32));
}

#[test]
fn render_modern_is_grounded_on_the_original() {
    let req = render_modern_request(&caesar());
    assert_eq!(req.system, RENDER_SYSTEM);
    assert_eq!(req.context, "Mark 12:17: Give to Caesar what is Caesar's.");
    assert_eq!(req.user, "Render Mark 12:17 in present-day English.");
    let out = to_json(&render_modern_result(&caesar(), format!("(rendered) {}", req.context)));
    assert!(out["modern"].as_str().unwrap().contains("Caesar"));
    assert_eq!(out["ref"], "Mark 12:17");
    assert_eq!(out["original"], "Give to Caesar what is Caesar's.");
    assert_eq!(
        no_saying_at(&"Luke 1:1".to_string()),
        SkillError::Execution("no saying at 'Luke 1:1'".into())
    );
}

#[test]
fn mindmap_projects_nodes_and_edges() {
    let d = project_topic("Caesar", &[caesar()]);
    let out = to_json(&mindmap_result(&d));
    let nodes = out["nodes"].as_array().unwrap();
    assert!(nodes.iter().any(|n| n["kind"] == "topic"));
    assert!(nodes.iter().any(|n| n["kind"] == "saying" && n["label"] == "Mark 12:17"));
    assert!(out["edges"].as_array().unwrap().iter().any(|e| e["relation"] == "matches"));
}

struct DenyWithReason;

impl Authorizer for DenyWithReason {
    fn authorize(&self, skill: &str, _risk: RiskClass) -> Decision {
        Decision::Deny(format!("policy forbids {skill}"))
    }
}

#[test]
fn authorizer_denial_reason_reaches_the_caller() {
    let reg = register_builtins(Registry::new()).with_authorizer(DenyWithReason);
    assert!(matches!(
        reg.authorize_invocation("lookup_saying"),
        Err(SkillError::NotAuthorized(m)) if m == "policy forbids lookup_saying"
    ));
    assert!(matches!(reg.authorize_invocation("nope"), Err(SkillError::Unknown(_))));
}

#[test]
fn skill_args_are_read_from_json_text() {
    let args = skill_args(r#"{"ref": "Mark 12:17"}"#).unwrap();
    assert_eq!(arg_str(&args, "ref").unwrap(), "Mark 12:17");
    assert!(matches!(skill_args("{ref: Mark}"), Err(SkillError::InvalidArgs(m)) if m == "invalid --args JSON"));
}
