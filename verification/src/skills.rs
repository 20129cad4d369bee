//! Skills: risk classes, deterministic authorization, and the one registry behind the CLI,
//! the MCP server and the model's tool list. Persona is not permission: whether a skill may
//! run is decided here, from its risk class alone, before it executes. Running a skill (a
//! store query or a generation) is the application's part; which skill, and whether it may
//! run, is decided here.
use vstd::prelude::*;
use crate::prompt::views;
use crate::text::{chars_of, lemma_lex_asym, lemma_lex_total, lemma_lex_trans, lex_lt, lex_lt_exec, str_eq};
use crate::wire::{Json, Wire, entries, json, jsons, jstr, jstring, obj, obj_push};

verus! {

/// How risky or irreversible a skill's effect is: the authorization input.
#[derive(Debug, Clone, Copy, PartialEq, Eq, PartialOrd, Ord, Hash, Structural)]
pub enum RiskClass {
    /// Read-only: retrieval, rendering, cross-references. Safe to run autonomously.
    ReadOnly,
    /// Sends or writes externally. Requires approval.
    Outbound,
    /// Irreversible (delete, spend, overwrite). Requires explicit approval.
    Irreversible,
}

/// The name of a risk class, as its `Debug` form renders it.
pub open spec fn risk_name(r: RiskClass) -> Seq<char> {
    match r {
        RiskClass::ReadOnly => "ReadOnly"@,
        RiskClass::Outbound => "Outbound"@,
        RiskClass::Irreversible => "Irreversible"@,
    }
}

impl RiskClass {
    /// The class's name.
    pub fn name(&self) -> (s: String)
        ensures
            s@ == risk_name(*self),
    {
        match self {
            RiskClass::ReadOnly => String::from_str("ReadOnly"),
            RiskClass::Outbound => String::from_str("Outbound"),
            RiskClass::Irreversible => String::from_str("Irreversible"),
        }
    }
}

/// The outcome of an authorization check.
#[derive(Debug, Clone, PartialEq, Eq)]
pub enum Decision {
    /// Cleared to execute.
    Allow,
    /// Blocked, with a reason for the audit trail and the user.
    Deny(String),
}

/// Decides whether a skill of a given risk class may run; deterministic in its inputs, with
/// no model in the loop.
pub trait Authorizer {
    /// The decisions this authorizer may give for a skill of this name and risk class. An
    /// implementation that states no policy may give any decision.
    open spec fn permits(&self, skill: &str, risk: RiskClass, d: Decision) -> bool {
        true
    }

    fn authorize(&self, skill: &str, risk: RiskClass) -> (d: Decision)
        ensures
            self.permits(skill, risk, d),
    ;
}

/// Why the read-only policy refuses a risky skill.
pub open spec fn unapproved_text(skill: Seq<char>, risk: RiskClass) -> Seq<char> {
    "skill '"@ + skill + "' is "@ + risk_name(risk) + " and no approval channel is configured"@
}

/// Why a human checkpoint refuses a risky skill.
pub open spec fn declined_text(skill: Seq<char>, risk: RiskClass) -> Seq<char> {
    "human declined the "@ + risk_name(risk) + " skill '"@ + skill + "'"@
}

/// The safe default: only read-only skills run; anything acting on the outside world is
/// denied outright, since no human is present to approve it.
#[derive(Debug, Default, Clone, Copy)]
pub struct AutoAllowReadOnly;

impl Authorizer for AutoAllowReadOnly {
    /// Reads are allowed; anything else is denied with the unapproved-skill reason.
    open spec fn permits(&self, skill: &str, risk: RiskClass, d: Decision) -> bool {
        if risk == RiskClass::ReadOnly {
            d is Allow
        } else {
            d matches Decision::Deny(m) && m@ == unapproved_text(skill@, risk)
        }
    }

    fn authorize(&self, skill: &str, risk: RiskClass) -> (d: Decision)
        ensures
            risk == RiskClass::ReadOnly ==> d is Allow,
            risk != RiskClass::ReadOnly ==> (d matches Decision::Deny(m) && m@ == unapproved_text(
                skill@,
                risk,
            )),
    {
        match risk {
            RiskClass::ReadOnly => Decision::Allow,
            _ => {
                let mut m = String::from_str("skill '");
                m.append(skill);
                m.append("' is ");
                let n = risk.name();
                m.append(n.as_str());
                m.append(" and no approval channel is configured");
                Decision::Deny(m)
            },
        }
    }
}

/// Human-in-the-loop authorization: reads run autonomously; outbound and irreversible skills
/// go to the `prompt` callback, which returns the human's approval.
pub struct HumanCheckpoint<F> where F: Fn(&str, RiskClass) -> bool + Send + Sync {
    prompt: F,
}

impl<F> HumanCheckpoint<F> where F: Fn(&str, RiskClass) -> bool + Send + Sync {
    #[verifier::type_invariant]
    spec fn callable(self) -> bool {
        forall|s: &str, r: RiskClass| #[trigger] call_requires(self.prompt, (s, r))
    }

    /// The approval callback.
    pub closed spec fn approver(self) -> F {
        self.prompt
    }

    /// `prompt(skill_name, risk) -> approved`: the genuine approval channel.
    pub fn new(prompt: F) -> (h: Self)
        requires
            forall|s: &str, r: RiskClass| #[trigger] call_requires(prompt, (s, r)),
        ensures
            h.approver() == prompt,
    {
        HumanCheckpoint { prompt }
    }
}

impl<F> Authorizer for HumanCheckpoint<F> where F: Fn(&str, RiskClass) -> bool + Send + Sync {
    /// Reads are allowed; anything else follows an answer the approval callback may give: an
    /// approval allows it, a refusal denies it with the declined reason.
    open spec fn permits(&self, skill: &str, risk: RiskClass, d: Decision) -> bool {
        if risk == RiskClass::ReadOnly {
            d is Allow
        } else {
            exists|approved: bool|
                #[trigger] call_ensures(self.approver(), (skill, risk), approved) && if approved {
                    d is Allow
                } else {
                    d matches Decision::Deny(m) && m@ == declined_text(skill@, risk)
                }
        }
    }

    fn authorize(&self, skill: &str, risk: RiskClass) -> (d: Decision)
        ensures
            risk == RiskClass::ReadOnly ==> d is Allow,
            risk != RiskClass::ReadOnly ==> exists|approved: bool|
                #[trigger] call_ensures(self.approver(), (skill, risk), approved) && if approved {
                    d is Allow
                } else {
                    d matches Decision::Deny(m) && m@ == declined_text(skill@, risk)
                },
    {
        match risk {
            RiskClass::ReadOnly => Decision::Allow,
            other => {
                proof {
                    use_type_invariant(self);
                }
                let approved = (self.prompt)(skill, other);
                assert(call_ensures(self.approver(), (skill, risk), approved));
                if approved {
                    Decision::Allow
                } else {
                    let mut m = String::from_str("human declined the ");
                    let n = other.name();
                    m.append(n.as_str());
                    m.append(" skill '");
                    m.append(skill);
                    m.append("'");
                    Decision::Deny(m)
                }
            },
        }
    }
}

/// Why a skill invocation failed.
#[derive(Debug, Clone, PartialEq, Eq)]
pub enum SkillError {
    Unknown(String),
    InvalidArgs(String),
    Execution(String),
    NotAuthorized(String),
}

/// The display text of a skill error.
pub open spec fn skill_error_text(e: SkillError) -> Seq<char> {
    match e {
        SkillError::Unknown(m) => "unknown skill: "@ + m@,
        SkillError::InvalidArgs(m) => "invalid arguments: "@ + m@,
        SkillError::Execution(m) => "execution failed: "@ + m@,
        SkillError::NotAuthorized(m) => "not authorized: "@ + m@,
    }
}

fn prefixed(prefix: &str, m: &String) -> (r: String)
    ensures
        r@ == prefix@ + m@,
{
    let mut r = String::from_str(prefix);
    r.append(m.as_str());
    r
}

impl SkillError {
    /// The error's display text.
    pub fn message(&self) -> (r: String)
        ensures
            r@ == skill_error_text(*self),
    {
        match self {
            SkillError::Unknown(m) => prefixed("unknown skill: ", m),
            SkillError::InvalidArgs(m) => prefixed("invalid arguments: ", m),
            SkillError::Execution(m) => prefixed("execution failed: ", m),
            SkillError::NotAuthorized(m) => prefixed("not authorized: ", m),
        }
    }
}

/// What the registry knows of a skill: its stable tool name, its description, its risk class
/// and the JSON schema of its arguments (OpenAI tool format).
#[derive(Debug)]
pub struct SkillSpec {
    pub name: String,
    pub description: String,
    pub risk: RiskClass,
    pub schema: Wire,
}

/// The mathematical value of a [`SkillSpec`].
pub struct SkillView {
    pub name: Seq<char>,
    pub description: Seq<char>,
    pub risk: RiskClass,
    pub schema: Json,
}

pub open spec fn skill_view(s: SkillSpec) -> SkillView {
    SkillView { name: s.name@, description: s.description@, risk: s.risk, schema: json(s.schema) }
}

pub open spec fn skill_views(s: Seq<SkillSpec>) -> Seq<SkillView> {
    s.map_values(|x: SkillSpec| skill_view(x))
}

/// Names in strictly ascending order: sorted, and no name twice.
pub open spec fn names_sorted(s: Seq<SkillView>) -> bool {
    forall|i: int, j: int| 0 <= i < j < s.len() ==> lex_lt(#[trigger] s[i].name, #[trigger] s[j].name)
}

/// The skill registered under `name`.
pub open spec fn lookup(s: Seq<SkillView>, name: Seq<char>) -> Option<SkillView>
    decreases s.len(),
{
    if s.len() == 0 {
        None
    } else if s[0].name == name {
        Some(s[0])
    } else {
        lookup(s.drop_first(), name)
    }
}

/// Register `x`: it replaces the skill of the same name, else it goes in before the first
/// name above its own.
pub open spec fn put(s: Seq<SkillView>, x: SkillView) -> Seq<SkillView>
    decreases s.len(),
{
    if s.len() == 0 {
        seq![x]
    } else if s[0].name == x.name {
        seq![x] + s.drop_first()
    } else if lex_lt(x.name, s[0].name) {
        seq![x] + s
    } else {
        seq![s[0]] + put(s.drop_first(), x)
    }
}

/// The OpenAI-format tool spec of a skill.
pub open spec fn tool_spec_json(v: SkillView) -> Json {
    Json::Object(
        seq![
            ("type"@, Json::Str("function"@)),
            (
                "function"@,
                Json::Object(
                    seq![
                        ("name"@, Json::Str(v.name)),
                        ("description"@, Json::Str(v.description)),
                        ("parameters"@, v.schema),
                    ],
                ),
            ),
        ],
    )
}

/// Every skill of `put(s, x)` is `x` or was in `s`.
proof fn lemma_put_members(s: Seq<SkillView>, x: SkillView, k: int)
    requires
        0 <= k < put(s, x).len(),
    ensures
        put(s, x)[k] == x || exists|j: int| 0 <= j < s.len() && put(s, x)[k] == s[j],
    decreases s.len(),
{
    if s.len() > 0 && s[0].name != x.name && !lex_lt(x.name, s[0].name) && k > 0 {
        let t = s.drop_first();
        lemma_put_members(t, x, k - 1);
        if put(t, x)[k - 1] != x {
            let j = choose|j: int| 0 <= j < t.len() && put(t, x)[k - 1] == t[j];
            assert(put(s, x)[k] == s[j + 1]);
        }
    } else if s.len() > 0 && s[0].name == x.name && k > 0 {
        assert(put(s, x)[k] == s[k]);
    } else if s.len() > 0 && lex_lt(x.name, s[0].name) && k > 0 {
        assert(put(s, x)[k] == s[k - 1]);
    }
}

/// Registering keeps the names strictly ascending.
pub proof fn lemma_put_sorted(s: Seq<SkillView>, x: SkillView)
    requires
        names_sorted(s),
    ensures
        names_sorted(put(s, x)),
    decreases s.len(),
{
    let r = put(s, x);
    if s.len() == 0 {
    } else if s[0].name == x.name {
        assert forall|i: int, j: int| 0 <= i < j < r.len() implies lex_lt(
            #[trigger] r[i].name,
            #[trigger] r[j].name,
        ) by {
            if i == 0 {
                assert(r[j] == s[j]);
            } else {
                assert(r[i] == s[i] && r[j] == s[j]);
            }
        }
    } else if lex_lt(x.name, s[0].name) {
        assert forall|i: int, j: int| 0 <= i < j < r.len() implies lex_lt(
            #[trigger] r[i].name,
            #[trigger] r[j].name,
        ) by {
            if i == 0 {
                assert(r[j] == s[j - 1]);
                if j > 1 {
                    lemma_lex_trans(x.name, s[0].name, s[j - 1].name);
                }
            } else {
                assert(r[i] == s[i - 1] && r[j] == s[j - 1]);
            }
        }
    } else {
        lemma_lex_total(s[0].name, x.name);
        let t = s.drop_first();
        assert(names_sorted(t)) by {
            assert forall|i: int, j: int| 0 <= i < j < t.len() implies lex_lt(
                #[trigger] t[i].name,
                #[trigger] t[j].name,
            ) by {
                assert(t[i] == s[i + 1] && t[j] == s[j + 1]);
            }
        }
        lemma_put_sorted(t, x);
        assert forall|i: int, j: int| 0 <= i < j < r.len() implies lex_lt(
            #[trigger] r[i].name,
            #[trigger] r[j].name,
        ) by {
            if i == 0 {
                assert(r[j] == put(t, x)[j - 1]);
                lemma_put_members(t, x, j - 1);
                if put(t, x)[j - 1] != x {
                    let k = choose|k: int| 0 <= k < t.len() && put(t, x)[j - 1] == t[k];
                    assert(t[k] == s[k + 1]);
                }
            } else {
                assert(r[i] == put(t, x)[i - 1] && r[j] == put(t, x)[j - 1]);
            }
        }
    }
}

/// Read after write: after registering `x`, its name finds `x`; every other name finds what
/// it found before.
pub proof fn lemma_lookup_put(s: Seq<SkillView>, x: SkillView, name: Seq<char>)
    ensures
        lookup(put(s, x), x.name) == Some(x),
        name != x.name ==> lookup(put(s, x), name) == lookup(s, name),
    decreases s.len(),
{
    if s.len() == 0 {
        assert(put(s, x)[0] == x);
        assert(put(s, x).drop_first().len() == 0);
        if name != x.name {
            assert(lookup(put(s, x), name) == lookup(put(s, x).drop_first(), name));
        }
    } else if s[0].name == x.name {
        assert(put(s, x)[0] == x);
        assert(put(s, x).drop_first() =~= s.drop_first());
        if name != x.name {
            assert(lookup(put(s, x), name) == lookup(put(s, x).drop_first(), name));
            assert(lookup(s, name) == lookup(s.drop_first(), name));
        }
    } else if lex_lt(x.name, s[0].name) {
        assert(put(s, x)[0] == x);
        assert(put(s, x).drop_first() =~= s);
        if name != x.name {
            assert(lookup(put(s, x), name) == lookup(put(s, x).drop_first(), name));
        }
    } else {
        assert(put(s, x)[0] == s[0]);
        assert(put(s, x).drop_first() =~= put(s.drop_first(), x));
        lemma_lookup_put(s.drop_first(), x, name);
        assert(lookup(put(s, x), x.name) == lookup(put(s.drop_first(), x), x.name));
        if name != x.name && s[0].name != name {
            assert(lookup(put(s, x), name) == lookup(put(s.drop_first(), x), name));
            assert(lookup(s, name) == lookup(s.drop_first(), name));
        }
    }
}

/// `put` finds its place after the names below `x`'s.
proof fn lemma_put_skip(s: Seq<SkillView>, x: SkillView, i: int)
    requires
        0 <= i <= s.len(),
        forall|k: int| 0 <= k < i ==> lex_lt(#[trigger] s[k].name, x.name),
    ensures
        put(s, x) == s.take(i) + put(s.skip(i), x),
    decreases i,
{
    if i == 0 {
        assert(s.skip(0) =~= s);
        assert(s.take(0) + put(s, x) =~= put(s, x));
    } else {
        lemma_lex_asym(s[0].name, x.name);
        let t = s.drop_first();
        assert forall|k: int| 0 <= k < i - 1 implies lex_lt(#[trigger] t[k].name, x.name) by {
            assert(t[k] == s[k + 1]);
        }
        lemma_put_skip(t, x, i - 1);
        assert(t.skip(i - 1) =~= s.skip(i));
        assert(seq![s[0]] + (t.take(i - 1) + put(s.skip(i), x)) =~= s.take(i) + put(s.skip(i), x));
    }
}

/// The registered skills, in ascending name order, with the authorizer that gates them.
#[derive(Debug)]
pub struct Registry<A> {
    skills: Vec<SkillSpec>,
    authorizer: A,
}

impl<A> View for Registry<A> {
    type V = Seq<SkillView>;

    closed spec fn view(&self) -> Seq<SkillView> {
        skill_views(self.skills@)
    }
}

impl<A> Registry<A> {
    #[verifier::type_invariant]
    spec fn sorted(self) -> bool {
        names_sorted(skill_views(self.skills@))
    }

    /// The authorizer that gates the registry's skills.
    pub closed spec fn policy(self) -> A {
        self.authorizer
    }
}

/// The registry's verdict on an authorization decision: run, or `NotAuthorized` with the
/// authorizer's reason.
pub fn decision_outcome(decision: Decision) -> (r: Result<(), SkillError>)
    ensures
        decision is Allow ==> r is Ok,
        decision matches Decision::Deny(reason) ==> (r matches Err(SkillError::NotAuthorized(m))
            && m@ == reason@),
{
    match decision {
        Decision::Allow => Ok(()),
        Decision::Deny(reason) => Err(SkillError::NotAuthorized(reason)),
    }
}

fn name_below(a: &String, b: &Vec<char>) -> (r: bool)
    ensures
        r == lex_lt(a@, b@),
{
    let v = chars_of(a.as_str());
    lex_lt_exec(&v, b)
}

impl Registry<AutoAllowReadOnly> {
    /// An empty registry under the read-only policy.
    pub fn new() -> (r: Self)
        ensures
            r@ == Seq::<SkillView>::empty(),
            r.policy() == AutoAllowReadOnly,
    {
        let r = Registry { skills: Vec::new(), authorizer: AutoAllowReadOnly };
        assert(r@ =~= Seq::<SkillView>::empty());
        r
    }
}

impl<A: Authorizer> Registry<A> {
    /// The same skills under another authorizer (such as a [`HumanCheckpoint`]).
    pub fn with_authorizer<B: Authorizer>(self, authorizer: B) -> (r: Registry<B>)
        ensures
            r@ == self@,
            r.policy() == authorizer,
    {
        proof {
            use_type_invariant(&self);
        }
        let Registry { skills, authorizer: _ } = self;
        Registry { skills, authorizer }
    }

    /// Register a skill; one of the same name is replaced.
    pub fn with(self, skill: SkillSpec) -> (r: Self)
        ensures
            r@ == put(self@, skill_view(skill)),
            r.policy() == self.policy(),
    {
        proof {
            use_type_invariant(&self);
        }
        let Registry { mut skills, authorizer } = self;
        let ghost s = skill_views(skills@);
        let ghost x = skill_view(skill);
        let name = chars_of(skill.name.as_str());
        let mut i: usize = 0;
        while i < skills.len() && name_below(&skills[i].name, &name)
            invariant
                0 <= i <= skills@.len(),
                s == skill_views(skills@),
                name@ == x.name,
                forall|k: int| 0 <= k < i ==> lex_lt(#[trigger] s[k].name, x.name),
            decreases skills.len() - i,
        {
            i = i + 1;
        }
        proof {
            lemma_put_skip(s, x, i as int);
            lemma_put_sorted(s, x);
        }
        if i < skills.len() && str_eq(skills[i].name.as_str(), skill.name.as_str()) {
            proof {
                assert(s.skip(i as int).drop_first() =~= s.skip(i + 1));
                assert(put(s.skip(i as int), x) =~= seq![x] + s.skip(i + 1));
            }
            skills[i] = skill;
            proof {
                assert(skill_views(skills@) =~= s.take(i as int) + (seq![x] + s.skip(i + 1)));
            }
        } else {
            proof {
                if i < s.len() {
                    lemma_lex_total(s[i as int].name, x.name);
                    assert(put(s.skip(i as int), x) =~= seq![x] + s.skip(i as int));
                } else {
                    assert(put(s.skip(i as int), x) =~= seq![x]);
                }
            }
            skills.insert(i, skill);
            proof {
                assert(skill_views(skills@) =~= s.take(i as int) + put(s.skip(i as int), x));
            }
        }
        Registry { skills, authorizer }
    }

    /// The skill registered under `name`.
    pub fn get(&self, name: &str) -> (r: Option<&SkillSpec>)
        ensures
            match lookup(self@, name@) {
                Some(v) => r matches Some(s) && skill_view(*s) == v,
                None => r is None,
            },
    {
        let ghost s = self@;
        let mut i: usize = 0;
        assert(s.skip(0) =~= s);
        while i < self.skills.len()
            invariant
                0 <= i <= self.skills@.len(),
                s == skill_views(self.skills@),
                lookup(s, name@) == lookup(s.skip(i as int), name@),
            decreases self.skills.len() - i,
        {
            proof {
                assert(s.skip(i as int).drop_first() =~= s.skip(i + 1));
                assert(s.skip(i as int)[0] == skill_view(self.skills@[i as int]));
            }
            if str_eq(self.skills[i].name.as_str(), name) {
                return Some(&self.skills[i]);
            }
            i = i + 1;
        }
        None
    }

    /// The registered names, in ascending order, each once.
    pub fn names(&self) -> (r: Vec<String>)
        ensures
            views(r@) == self@.map_values(|v: SkillView| v.name),
            names_sorted(self@),
    {
        proof {
            use_type_invariant(self);
        }
        let ghost s = self@;
        let mut r: Vec<String> = Vec::new();
        let mut i: usize = 0;
        while i < self.skills.len()
            invariant
                0 <= i <= self.skills@.len(),
                s == skill_views(self.skills@),
                views(r@) == s.take(i as int).map_values(|v: SkillView| v.name),
            decreases self.skills.len() - i,
        {
            let ghost before = views(r@);
            r.push(self.skills[i].name.clone());
            proof {
                assert(views(r@) =~= before.push(s[i as int].name));
                assert(s.take(i + 1).map_values(|v: SkillView| v.name) =~= s.take(i as int).map_values(
                    |v: SkillView| v.name,
                ).push(s[i as int].name));
            }
            i = i + 1;
        }
        proof {
            assert(s.take(s.len() as int) =~= s);
        }
        r
    }

    /// The OpenAI-format tool spec of every skill, in name order, for the model's tool-call
    /// list and the MCP tool registry.
    pub fn tool_specs(&self) -> (r: Vec<Wire>)
        ensures
            jsons(r@) == self@.map_values(|v: SkillView| tool_spec_json(v)),
    {
        let ghost s = self@;
        let mut r: Vec<Wire> = Vec::new();
        let mut i: usize = 0;
        while i < self.skills.len()
            invariant
                0 <= i <= self.skills@.len(),
                s == skill_views(self.skills@),
                jsons(r@) == s.take(i as int).map_values(|v: SkillView| tool_spec_json(v)),
            decreases self.skills.len() - i,
        {
            let sk = &self.skills[i];
            let mut f: Vec<(String, Wire)> = Vec::new();
            obj_push(&mut f, "name", jstring(sk.name.clone()));
            obj_push(&mut f, "description", jstring(sk.description.clone()));
            obj_push(&mut f, "parameters", sk.schema.duplicate());
            let mut top: Vec<(String, Wire)> = Vec::new();
            obj_push(&mut top, "type", jstr("function"));
            obj_push(&mut top, "function", obj(f));
            proof {
                assert(entries(f@) =~= seq![
                    ("name"@, Json::Str(s[i as int].name)),
                    ("description"@, Json::Str(s[i as int].description)),
                    ("parameters"@, s[i as int].schema),
                ]);
                assert(entries(top@) =~= seq![
                    ("type"@, Json::Str("function"@)),
                    ("function"@, Json::Object(entries(f@))),
                ]);
            }
            let spec_json = obj(top);
            let ghost before = jsons(r@);
            r.push(spec_json);
            proof {
                assert(jsons(r@) =~= before.push(tool_spec_json(s[i as int])));
                assert(s.take(i + 1).map_values(|v: SkillView| tool_spec_json(v)) =~= s.take(
                    i as int,
                ).map_values(|v: SkillView| tool_spec_json(v)).push(tool_spec_json(s[i as int])));
            }
            i = i + 1;
        }
        proof {
            assert(s.take(s.len() as int) =~= s);
        }
        r
    }

    /// The argument schemas alone, in name order.
    pub fn schemas(&self) -> (r: Vec<Wire>)
        ensures
            jsons(r@) == self@.map_values(|v: SkillView| v.schema),
    {
        let ghost s = self@;
        let mut r: Vec<Wire> = Vec::new();
        let mut i: usize = 0;
        while i < self.skills.len()
            invariant
                0 <= i <= self.skills@.len(),
                s == skill_views(self.skills@),
                jsons(r@) == s.take(i as int).map_values(|v: SkillView| v.schema),
            decreases self.skills.len() - i,
        {
            let w = self.skills[i].schema.duplicate();
            let ghost before = jsons(r@);
            r.push(w);
            proof {
                assert(jsons(r@) =~= before.push(s[i as int].schema));
                assert(s.take(i + 1).map_values(|v: SkillView| v.schema) =~= s.take(i as int).map_values(
                    |v: SkillView| v.schema,
                ).push(s[i as int].schema));
            }
            i = i + 1;
        }
        proof {
            assert(s.take(s.len() as int) =~= s);
        }
        r
    }

    /// The one path a skill runs through: look it up (`Unknown` when absent, with the
    /// authorizer not asked), then ask the authorizer about its name and risk class: on
    /// `Allow`, the skill the caller may now run; on `Deny`, `NotAuthorized` with the reason.
    pub fn authorize_invocation(&self, name: &str) -> (r: Result<&SkillSpec, SkillError>)
        ensures
            lookup(self@, name@) is None ==> (r matches Err(SkillError::Unknown(m)) && m@ == name@),
            lookup(self@, name@) matches Some(v) ==> exists|d: Decision|
                #[trigger] self.policy().permits(name, v.risk, d) && match d {
                    Decision::Allow => r matches Ok(s) && skill_view(*s) == v,
                    Decision::Deny(m) => r matches Err(SkillError::NotAuthorized(e)) && e@ == m@,
                },
    {
        match self.get(name) {
            None => Err(SkillError::Unknown(String::from_str(name))),
            Some(skill) => {
                let decision = self.authorizer.authorize(name, skill.risk);
                let ghost d = decision;
                assert(self.policy().permits(name, lookup(self@, name@)->Some_0.risk, d));
                match decision_outcome(decision) {
                    Ok(()) => Ok(skill),
                    Err(e) => Err(e),
                }
            },
        }
    }
}

} // verus!
