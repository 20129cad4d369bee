//! The bookkeeping of a gate calibration run: which eval sets it reads, the query each eval
//! record carries, the distribution of leg agreement per set, and the summary line printed
//! for it. Running the retrieval legs and writing the report are the application's.
use vstd::prelude::*;
use std::collections::BTreeMap;
use crate::text::{decimal, join, usize_text};
use crate::wire::{Json, Wire, field, json};
use crate::jsontext::{parse_json, parsed_json};

verus! {

/// The eval sets a calibration reads, with their files.
pub fn eval_sets() -> (r: Vec<(&'static str, &'static str)>)
    ensures
        r@.map_values(|x: (&str, &str)| (x.0@, x.1@)) == seq![
            ("grounding"@, "grounding.jsonl"@),
            ("refusal"@, "refusal.jsonl"@),
            ("method-application"@, "method-application.jsonl"@),
            ("boundary"@, "boundary.jsonl"@),
        ],
{
    let r = vec![
        ("grounding", "grounding.jsonl"),
        ("refusal", "refusal.jsonl"),
        ("method-application", "method-application.jsonl"),
        ("boundary", "boundary.jsonl"),
    ];
    assert(r@.map_values(|x: (&str, &str)| (x.0@, x.1@)) =~= seq![
        ("grounding"@, "grounding.jsonl"@),
        ("refusal"@, "refusal.jsonl"@),
        ("method-application"@, "method-application.jsonl"@),
        ("boundary"@, "boundary.jsonl"@),
    ]);
    r
}

pub open spec fn str_or_empty(j: Json) -> Seq<char> {
    match j {
        Json::Str(s) => s,
        _ => Seq::empty(),
    }
}

/// The query of an eval record: its `user_query`, else its `query`; blank when the field
/// found is not a string or neither is there.
pub open spec fn eval_query_text(v: Json) -> Seq<char> {
    match field(v, "user_query"@) {
        Some(j) => str_or_empty(j),
        None => match field(v, "query"@) {
            Some(j) => str_or_empty(j),
            None => Seq::empty(),
        },
    }
}

/// The query an eval record carries (eval sets use either `user_query` or `query`).
pub fn eval_query(record: &Wire) -> (r: String)
    ensures
        r@ == eval_query_text(json(*record)),
{
    let found = match record.get("user_query") {
        Some(w) => Some(w),
        None => record.get("query"),
    };
    match found {
        Some(w) => match w.as_str() {
            Some(s) => s.clone(),
            None => String::new(),
        },
        None => String::new(),
    }
}

/// What one non-blank line of an eval file gives the calibration.
#[derive(Debug)]
pub enum EvalLine {
    /// A record with a query to run, and that query.
    Query { record: Wire, query: String },
    /// A record without a query: skipped.
    NoQuery,
    /// Not a JSON value: the run stops.
    NotJson,
}

/// Read one eval line: `NotJson` when `serde_json` cannot parse it; else the record and its
/// query, or `NoQuery` when that query is empty.
pub fn eval_line(line: &str) -> (r: EvalLine)
    ensures
        match parsed_json(line@) {
            None => r is NotJson,
            Some(j) => if eval_query_text(j).len() == 0 {
                r is NoQuery
            } else {
                r matches EvalLine::Query { record, query } && json(record) == j && query@
                    == eval_query_text(j)
            },
        },
{
    match parse_json(line) {
        None => EvalLine::NotJson,
        Some(record) => {
            let query = eval_query(&record);
            if query.as_str().is_empty() {
                EvalLine::NoQuery
            } else {
                EvalLine::Query { record, query }
            }
        },
    }
}

/// A distribution as ascending `(legs, count)` pairs, one per leg count seen.
pub open spec fn ascending(d: Seq<(usize, usize)>) -> bool {
    forall|i: int, j: int| 0 <= i < j < d.len() ==> d[i].0 < d[j].0
}

/// The count recorded for `legs`, zero when none is.
pub open spec fn count_of(d: Map<usize, usize>, legs: usize) -> int {
    if d.contains_key(legs) {
        d[legs] as int
    } else {
        0
    }
}

/// Count one more record whose top passage `legs` legs agreed on.
pub fn tally(dist: &mut BTreeMap<usize, usize>, legs: usize)
    requires
        count_of(old(dist)@, legs) < usize::MAX,
    ensures
        final(dist)@ == old(dist)@.insert(legs, (count_of(old(dist)@, legs) + 1) as usize),
{
    broadcast use vstd::std_specs::btree::group_btree_axioms;
    let count: usize = match dist.get(&legs) {
        Some(c) => *c + 1,
        None => 1,
    };
    dist.insert(legs, count);
}

/// The entries of a distribution as `(legs, count)` pairs in ascending leg order: exactly
/// the map's entries, each once.
pub fn distribution(dist: &BTreeMap<usize, usize>) -> (r: Vec<(usize, usize)>)
    ensures
        ascending(r@),
        forall|i: int| 0 <= i < r@.len() ==> dist@.contains_key(#[trigger] r@[i].0) && dist@[r@[i].0] == r@[i].1,
        forall|legs: usize| #[trigger] dist@.contains_key(legs) ==> exists|i: int| 0 <= i < r@.len() && r@[i].0 == legs,
{
    broadcast use vstd::std_specs::btree::group_btree_axioms;
    let mut r: Vec<(usize, usize)> = Vec::new();
    let entries = dist.iter();
    let ghost rem = vstd::std_specs::iter::IteratorSpec::remaining(&entries);
    for kv in it: entries
        invariant
            r@.len() == it.index(),
            it.seq() == rem,
            rem == vstd::std_specs::iter::IteratorSpec::remaining(&dist.iter()),
            vstd::std_specs::btree::increasing_seq(rem.map_values(|kv: (&usize, &usize)| *kv.0)),
            forall|t: int| 0 <= t < r@.len() ==> r@[t] == (*it.seq()[t].0, *it.seq()[t].1),
    {
        r.push((*kv.0, *kv.1));
    }
    proof {
        let ks = rem.map_values(|kv: (&usize, &usize)| *kv.0);
        lemma_increasing_keys(ks);
        assert forall|i: int, j: int| 0 <= i < j < r@.len() implies r@[i].0 < r@[j].0 by {
            assert(ks[i] == r@[i].0);
            assert(ks[j] == r@[j].0);
        }
        assert forall|legs: usize| #[trigger] dist@.contains_key(legs) implies exists|i: int|
            0 <= i < r@.len() && r@[i].0 == legs by {
            assert(rem.contains((&legs, &dist@[legs])));
            let i = choose|i: int| 0 <= i < rem.len() && rem[i] == (&legs, &dist@[legs]);
            assert(r@[i].0 == legs);
        }
    }
    r
}

/// Keys that an ordered map's iterator yields in increasing order are strictly ascending.
proof fn lemma_increasing_keys(ks: Seq<usize>)
    requires
        vstd::std_specs::btree::increasing_seq(ks),
    ensures
        forall|i: int, j: int| 0 <= i < j < ks.len() ==> ks[i] < ks[j],
{
    broadcast use vstd::std_specs::btree::group_btree_axioms, vstd::laws_cmp::group_laws_cmp;
    assert forall|i: int, j: int| 0 <= i < j < ks.len() implies ks[i] < ks[j] by {
        assert(vstd::std_specs::cmp::OrdSpec::cmp_spec(&ks[i], &ks[j]) matches core::cmp::Ordering::Less);
    }
}

/// `s` padded with spaces on the right to at least `width` characters.
pub open spec fn padded(s: Seq<char>, width: nat) -> Seq<char> {
    if s.len() >= width {
        s
    } else {
        s + Seq::new((width - s.len()) as nat, |i: int| ' ')
    }
}

fn pad_right(s: String, width: usize) -> (r: String)
    ensures
        r@ == padded(s@, width as nat),
{
    let n = crate::text::chars_of(s.as_str()).len();
    let ghost s0 = s@;
    let mut r = s;
    if n < width {
        let mut k: usize = n;
        while k < width
            invariant
                n <= k <= width,
                n == s0.len(),
                r@ == s0 + Seq::new((k - n) as nat, |i: int| ' '),
            decreases width - k,
        {
            r.append(" ");
            proof {
                reveal_strlit(" ");
                assert(r@ =~= s0 + Seq::new((k + 1 - n) as nat, |i: int| ' '));
            }
            k = k + 1;
        }
    }
    r
}

/// One distribution entry as printed: `<legs>leg=<count>`.
pub open spec fn dist_item(e: (usize, usize)) -> Seq<char> {
    decimal(e.0 as nat) + "leg="@ + decimal(e.1 as nat)
}

/// The summary line of one eval set: its name padded to 20, its size padded to 3, and its
/// leg-agreement distribution.
pub open spec fn summary_text(set_name: Seq<char>, n: usize, dist: Seq<(usize, usize)>) -> Seq<char> {
    padded(set_name, 20) + " n="@ + padded(decimal(n as nat), 3) + " legs_matched: ["@ + join(
        dist.map_values(|e: (usize, usize)| dist_item(e)),
        " "@,
    ) + "]"@
}

/// The summary line printed for an eval set.
pub fn summary_line(set_name: &str, n: usize, dist: &[(usize, usize)]) -> (r: String)
    ensures
        r@ == summary_text(set_name@, n, dist@),
{
    let mut items: Vec<String> = Vec::new();
    let mut i: usize = 0;
    while i < dist.len()
        invariant
            0 <= i <= dist@.len(),
            items@.map_values(|p: String| p@) == dist@.take(i as int).map_values(
                |e: (usize, usize)| dist_item(e),
            ),
        decreases dist.len() - i,
    {
        let (legs, count) = dist[i];
        let mut item = usize_text(legs);
        item.append("leg=");
        let c = usize_text(count);
        item.append(c.as_str());
        let ghost before = items@.map_values(|p: String| p@);
        items.push(item);
        proof {
            assert(items@.map_values(|p: String| p@) =~= before.push(dist_item(dist@[i as int])));
            assert(dist@.take(i + 1).map_values(|e: (usize, usize)| dist_item(e)) =~= dist@.take(
                i as int,
            ).map_values(|e: (usize, usize)| dist_item(e)).push(dist_item(dist@[i as int])));
        }
        i = i + 1;
    }
    proof {
        assert(dist@.take(dist@.len() as int) =~= dist@);
    }
    let mut r = pad_right(String::from_str(set_name), 20);
    r.append(" n=");
    let nt = pad_right(usize_text(n), 3);
    r.append(nt.as_str());
    r.append(" legs_matched: [");
    let joined = crate::text::join_strings(items.as_slice(), " ");
    r.append(joined.as_str());
    r.append("]");
    r
}


} // verus!
