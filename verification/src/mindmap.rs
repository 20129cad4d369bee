//! Graph projection for the mind-map view: nodes and edges around a topic, built from the
//! retrieved sayings and their reasoning moves.
use vstd::prelude::*;
use crate::retrieve::Passage;
use crate::text::{chars_of, lex_lt, lex_lt_exec, lemma_lex_asym, lemma_lex_total, lemma_lex_trans, trim, trim_chars};

verus! {

/// A node in the mind-map (a topic, saying, or reasoning move).
#[derive(Debug, Clone)]
pub struct MindmapNode {
    pub id: String,
    pub label: String,
    pub kind: String,
}

/// A directed edge between two nodes (`matches`, `uses_move`, `parallels`).
#[derive(Debug, Clone)]
pub struct MindmapEdge {
    pub from: String,
    pub to: String,
    pub relation: String,
}

/// A graph fragment streamed to the UI.
#[derive(Debug, Clone)]
pub struct MindmapDelta {
    pub nodes: Vec<MindmapNode>,
    pub edges: Vec<MindmapEdge>,
}

pub open spec fn node_view(n: MindmapNode) -> (Seq<char>, Seq<char>, Seq<char>) {
    (n.id@, n.label@, n.kind@)
}

pub open spec fn edge_view(e: MindmapEdge) -> (Seq<char>, Seq<char>, Seq<char>) {
    (e.from@, e.to@, e.relation@)
}

/// `x` inserted into `s` before the first element not below it, unless already there.
pub open spec fn insert_sorted(s: Seq<Seq<char>>, x: Seq<char>) -> Seq<Seq<char>>
    decreases s.len(),
{
    if s.len() == 0 {
        seq![x]
    } else if s[0] == x {
        s
    } else if lex_lt(x, s[0]) {
        seq![x] + s
    } else {
        seq![s[0]] + insert_sorted(s.drop_first(), x)
    }
}

/// A reasoning move that is not blank.
pub open spec fn has_move(p: Passage) -> bool {
    trim(p.move_@).len() > 0
}

/// The distinct non-blank moves of the passages, in ascending order.
pub open spec fn move_list(ps: Seq<Passage>) -> Seq<Seq<char>>
    decreases ps.len(),
{
    if ps.len() == 0 {
        Seq::empty()
    } else {
        let rest = move_list(ps.drop_last());
        if has_move(ps.last()) {
            insert_sorted(rest, ps.last().move_@)
        } else {
            rest
        }
    }
}

pub open spec fn saying_id(p: Passage) -> Seq<char> {
    "saying:"@ + p.id@
}

pub open spec fn move_id(m: Seq<char>) -> Seq<char> {
    "move:"@ + m
}

/// The saying ids of the passages whose move is `m`, in passage order.
pub open spec fn members(ps: Seq<Passage>, m: Seq<char>) -> Seq<Seq<char>>
    decreases ps.len(),
{
    if ps.len() == 0 {
        Seq::empty()
    } else {
        let rest = members(ps.drop_last(), m);
        if ps.last().move_@ == m {
            rest.push(saying_id(ps.last()))
        } else {
            rest
        }
    }
}

/// `uses_move` edges from each member to the move, then `parallels` edges between
/// consecutive members.
pub open spec fn group_edges(sids: Seq<Seq<char>>, mid: Seq<char>) -> Seq<
    (Seq<char>, Seq<char>, Seq<char>),
> {
    sids.map_values(|s: Seq<char>| (s, mid, "uses_move"@)) + Seq::new(
        if sids.len() == 0 {
            0
        } else {
            (sids.len() - 1) as nat
        },
        |i: int| (sids[i], sids[i + 1], "parallels"@),
    )
}

/// The move layer's edges, move by move.
pub open spec fn move_edges(ps: Seq<Passage>, moves: Seq<Seq<char>>) -> Seq<
    (Seq<char>, Seq<char>, Seq<char>),
>
    decreases moves.len(),
{
    if moves.len() == 0 {
        Seq::empty()
    } else {
        move_edges(ps, moves.drop_last()) + group_edges(members(ps, moves.last()), move_id(moves.last()))
    }
}

pub open spec fn topic_id(topic: Seq<char>) -> Seq<char> {
    "topic:"@ + topic
}

/// The nodes of the mind-map around `topic`: the topic, one node per saying, one per move.
pub open spec fn topic_nodes(topic: Seq<char>, ps: Seq<Passage>) -> Seq<
    (Seq<char>, Seq<char>, Seq<char>),
> {
    seq![(topic_id(topic), topic, "topic"@)] + ps.map_values(
        |p: Passage| (saying_id(p), p.ref_@, "saying"@),
    ) + move_list(ps).map_values(|m: Seq<char>| (move_id(m), m, "reasoning_move"@))
}

/// The edges of the mind-map around `topic`: a `matches` edge to each saying, then the move
/// layer.
pub open spec fn topic_edges(topic: Seq<char>, ps: Seq<Passage>) -> Seq<
    (Seq<char>, Seq<char>, Seq<char>),
> {
    ps.map_values(|p: Passage| (topic_id(topic), saying_id(p), "matches"@)) + move_edges(
        ps,
        move_list(ps),
    )
}

fn prefixed(prefix: &str, s: &str) -> (r: String)
    ensures
        r@ == prefix@ + s@,
{
    let mut r = String::from_str(prefix);
    r.append(s);
    r
}

fn node(id: String, label: String, kind: &str) -> (n: MindmapNode)
    ensures
        node_view(n) == (id@, label@, kind@),
{
    MindmapNode { id, label, kind: String::from_str(kind) }
}

fn edge(from: String, to: String, relation: &str) -> (e: MindmapEdge)
    ensures
        edge_view(e) == (from@, to@, relation@),
{
    MindmapEdge { from, to, relation: String::from_str(relation) }
}

proof fn lemma_insert_sorted_skip(s: Seq<Seq<char>>, x: Seq<char>, i: int)
    requires
        0 <= i <= s.len(),
        forall|k: int| 0 <= k < i ==> lex_lt(#[trigger] s[k], x),
    ensures
        insert_sorted(s, x) == s.take(i) + insert_sorted(s.skip(i), x),
    decreases i,
{
    if i == 0 {
        assert(s.take(0) + s.skip(0) =~= s);
        assert(s.skip(0) =~= s);
        assert(s.take(0) + insert_sorted(s, x) =~= insert_sorted(s, x));
    } else {
        lemma_lex_asym(s[0], x);
        assert(s[0] != x);
        let t = s.drop_first();
        assert forall|k: int| 0 <= k < i - 1 implies lex_lt(#[trigger] t[k], x) by {
            assert(t[k] == s[k + 1]);
        }
        lemma_insert_sorted_skip(t, x, i - 1);
        assert(t.skip(i - 1) =~= s.skip(i));
        assert(seq![s[0]] + t.take(i - 1) =~= s.take(i));
        assert(seq![s[0]] + (t.take(i - 1) + insert_sorted(s.skip(i), x)) =~= s.take(i)
            + insert_sorted(s.skip(i), x));
    }
}

/// Insert a move into the ascending, duplicate-free list, as `BTreeMap::entry` orders keys.
fn insert_move(list: &mut Vec<Vec<char>>, x: Vec<char>)
    ensures
        final(list)@.map_values(|v: Vec<char>| v@) == insert_sorted(
            old(list)@.map_values(|v: Vec<char>| v@),
            x@,
        ),
{
    let ghost s = list@.map_values(|v: Vec<char>| v@);
    let mut i: usize = 0;
    while i < list.len() && lex_lt_exec(&list[i], &x)
        invariant
            0 <= i <= list@.len(),
            s == list@.map_values(|v: Vec<char>| v@),
            forall|k: int| 0 <= k < i ==> lex_lt(#[trigger] s[k], x@),
        decreases list.len() - i,
    {
        i = i + 1;
    }
    proof {
        lemma_insert_sorted_skip(s, x@, i as int);
    }
    let ghost rest = s.skip(i as int);
    if i < list.len() {
        let same = eq_chars(&list[i], &x);
        if same {
            proof {
                assert(rest[0] == x@);
                assert(s.take(i as int) + rest =~= s);
            }
            return;
        }
        proof {
            lemma_lex_total(s[i as int], x@);
            assert(lex_lt(x@, rest[0]));
        }
    }
    list.insert(i, x);
    proof {
        assert(list@.map_values(|v: Vec<char>| v@) =~= s.take(i as int) + insert_sorted(rest, x@));
    }
}

fn eq_chars(a: &Vec<char>, b: &Vec<char>) -> (r: bool)
    ensures
        r == (a@ == b@),
{
    if a.len() != b.len() {
        return false;
    }
    let mut i: usize = 0;
    while i < a.len()
        invariant
            a.len() == b.len(),
            0 <= i <= a.len(),
            forall|k: int| 0 <= k < i ==> a@[k] == b@[k],
        decreases a.len() - i,
    {
        if a[i] != b[i] {
            return false;
        }
        i = i + 1;
    }
    assert(a@ =~= b@);
    true
}

/// Build a mind-map around `topic` from its retrieved `passages`: a central `topic` node
/// with `matches` edges to a `saying` node per passage (labelled by its `ref`); a
/// `reasoning_move` node per distinct non-blank move, in ascending order, with `uses_move`
/// edges from its sayings and `parallels` edges between consecutive sayings that share it.
pub fn project_topic(topic: &str, passages: &[Passage]) -> (d: MindmapDelta)
    ensures
        d.nodes@.map_values(|n: MindmapNode| node_view(n)) == topic_nodes(topic@, passages@),
        d.edges@.map_values(|e: MindmapEdge| edge_view(e)) == topic_edges(topic@, passages@),
{
    let ps = passages;
    let tid = prefixed("topic:", topic);
    let mut nodes: Vec<MindmapNode> = Vec::new();
    let mut edges: Vec<MindmapEdge> = Vec::new();
    nodes.push(node(tid.clone(), String::from_str(topic), "topic"));
    let mut moves: Vec<Vec<char>> = Vec::new();
    let mut i: usize = 0;
    while i < ps.len()
        invariant
            0 <= i <= ps@.len(),
            tid@ == topic_id(topic@),
            nodes@.map_values(|n: MindmapNode| node_view(n)) == seq![
                (topic_id(topic@), topic@, "topic"@),
            ] + ps@.take(i as int).map_values(|p: Passage| (saying_id(p), p.ref_@, "saying"@)),
            edges@.map_values(|e: MindmapEdge| edge_view(e)) == ps@.take(i as int).map_values(
                |p: Passage| (topic_id(topic@), saying_id(p), "matches"@),
            ),
            moves@.map_values(|v: Vec<char>| v@) == move_list(ps@.take(i as int)),
        decreases ps.len() - i,
    {
        let p = &ps[i];
        let sid = prefixed("saying:", p.id.as_str());
        let ghost n0 = nodes@.map_values(|n: MindmapNode| node_view(n));
        let ghost e0 = edges@.map_values(|e: MindmapEdge| edge_view(e));
        nodes.push(node(sid.clone(), p.ref_.clone(), "saying"));
        edges.push(edge(tid.clone(), sid, "matches"));
        let mv = chars_of(p.move_.as_str());
        let trimmed = trim_chars(&mv);
        if trimmed.len() > 0 {
            insert_move(&mut moves, mv);
        }
        proof {
            let t1 = ps@.take(i + 1);
            assert(t1.drop_last() =~= ps@.take(i as int));
            assert(t1.last() == ps@[i as int]);
            assert(nodes@.map_values(|n: MindmapNode| node_view(n)) =~= n0.push(
                (saying_id(ps@[i as int]), ps@[i as int].ref_@, "saying"@),
            ));
            assert(edges@.map_values(|e: MindmapEdge| edge_view(e)) =~= e0.push(
                (topic_id(topic@), saying_id(ps@[i as int]), "matches"@),
            ));
            assert(t1.map_values(|p: Passage| (saying_id(p), p.ref_@, "saying"@)) =~= ps@.take(
                i as int,
            ).map_values(|p: Passage| (saying_id(p), p.ref_@, "saying"@)).push(
                (saying_id(ps@[i as int]), ps@[i as int].ref_@, "saying"@),
            ));
            assert(t1.map_values(|p: Passage| (topic_id(topic@), saying_id(p), "matches"@))
                =~= ps@.take(i as int).map_values(
                |p: Passage| (topic_id(topic@), saying_id(p), "matches"@),
            ).push((topic_id(topic@), saying_id(ps@[i as int]), "matches"@)));
            assert(seq![(topic_id(topic@), topic@, "topic"@)] + t1.map_values(
                |p: Passage| (saying_id(p), p.ref_@, "saying"@),
            ) =~= n0.push((saying_id(ps@[i as int]), ps@[i as int].ref_@, "saying"@)));
        }
        i = i + 1;
    }
    proof {
        assert(ps@.take(ps@.len() as int) =~= ps@);
    }
    let ghost msv = moves@.map_values(|v: Vec<char>| v@);
    let ghost base_nodes = nodes@.map_values(|n: MindmapNode| node_view(n));
    let ghost base_edges = edges@.map_values(|e: MindmapEdge| edge_view(e));
    let mut j: usize = 0;
    while j < moves.len()
        invariant
            0 <= j <= moves@.len(),
            msv == moves@.map_values(|v: Vec<char>| v@),
            msv == move_list(ps@),
            nodes@.map_values(|n: MindmapNode| node_view(n)) == base_nodes + msv.take(
                j as int,
            ).map_values(|m: Seq<char>| (move_id(m), m, "reasoning_move"@)),
            edges@.map_values(|e: MindmapEdge| edge_view(e)) == base_edges + move_edges(
                ps@,
                msv.take(j as int),
            ),
        decreases moves.len() - j,
    {
        let m = string_from(&moves[j]);
        let mid = prefixed("move:", m.as_str());
        let ghost n0 = nodes@.map_values(|n: MindmapNode| node_view(n));
        nodes.push(node(mid.clone(), m.clone(), "reasoning_move"));
        proof {
            let t1 = msv.take(j + 1);
            assert(t1.drop_last() =~= msv.take(j as int));
            assert(t1.last() == msv[j as int]);
            assert(nodes@.map_values(|n: MindmapNode| node_view(n)) =~= n0.push(
                (move_id(msv[j as int]), msv[j as int], "reasoning_move"@),
            ));
            assert(t1.map_values(|m: Seq<char>| (move_id(m), m, "reasoning_move"@)) =~= msv.take(
                j as int,
            ).map_values(|m: Seq<char>| (move_id(m), m, "reasoning_move"@)).push(
                (move_id(msv[j as int]), msv[j as int], "reasoning_move"@),
            ));
        }
        let sids = group_members(ps, &moves[j]);
        append_group_edges(&mut edges, &sids, &mid);
        proof {
            let t1 = msv.take(j + 1);
            assert(move_edges(ps@, t1) == move_edges(ps@, msv.take(j as int)) + group_edges(
                members(ps@, msv[j as int]),
                move_id(msv[j as int]),
            ));
        }
        j = j + 1;
    }
    proof {
        assert(msv.take(msv.len() as int) =~= msv);
    }
    MindmapDelta { nodes, edges }
}

fn string_from(v: &Vec<char>) -> (s: String)
    ensures
        s@ == v@,
{
    crate::text::string_from_chars(v.as_slice())
}

/// The saying ids of the passages whose move equals `m`.
fn group_members(ps: &[Passage], m: &Vec<char>) -> (r: Vec<String>)
    ensures
        r@.map_values(|s: String| s@) == members(ps@, m@),
{
    let mut r: Vec<String> = Vec::new();
    let mut i: usize = 0;
    while i < ps.len()
        invariant
            0 <= i <= ps@.len(),
            r@.map_values(|s: String| s@) == members(ps@.take(i as int), m@),
        decreases ps.len() - i,
    {
        let ghost r0 = r@.map_values(|s: String| s@);
        proof {
            assert(ps@.take(i + 1).drop_last() =~= ps@.take(i as int));
            assert(ps@.take(i + 1).last() == ps@[i as int]);
        }
        let mv = chars_of(ps[i].move_.as_str());
        if eq_chars(&mv, m) {
            r.push(prefixed("saying:", ps[i].id.as_str()));
            proof {
                assert(r@.map_values(|s: String| s@) =~= r0.push(saying_id(ps@[i as int])));
            }
        }
        i = i + 1;
    }
    proof {
        assert(ps@.take(ps@.len() as int) =~= ps@);
    }
    r
}

fn append_group_edges(edges: &mut Vec<MindmapEdge>, sids: &Vec<String>, mid: &String)
    ensures
        final(edges)@.map_values(|e: MindmapEdge| edge_view(e)) == old(edges)@.map_values(
            |e: MindmapEdge| edge_view(e),
        ) + group_edges(sids@.map_values(|s: String| s@), mid@),
{
    let ghost e0 = edges@.map_values(|e: MindmapEdge| edge_view(e));
    let ghost sv = sids@.map_values(|s: String| s@);
    let mut k: usize = 0;
    while k < sids.len()
        invariant
            0 <= k <= sids@.len(),
            sv == sids@.map_values(|s: String| s@),
            e0 == old(edges)@.map_values(|e: MindmapEdge| edge_view(e)),
            edges@.map_values(|e: MindmapEdge| edge_view(e)) == e0 + sv.take(k as int).map_values(
                |s: Seq<char>| (s, mid@, "uses_move"@),
            ),
        decreases sids.len() - k,
    {
        let ghost before = edges@.map_values(|e: MindmapEdge| edge_view(e));
        edges.push(edge(sids[k].clone(), mid.clone(), "uses_move"));
        proof {
            assert(edges@.map_values(|e: MindmapEdge| edge_view(e)) =~= before.push(
                (sv[k as int], mid@, "uses_move"@),
            ));
            assert(sv.take(k + 1).map_values(|s: Seq<char>| (s, mid@, "uses_move"@)) =~= sv.take(
                k as int,
            ).map_values(|s: Seq<char>| (s, mid@, "uses_move"@)).push((sv[k as int], mid@, "uses_move"@)));
        }
        k = k + 1;
    }
    proof {
        assert(sv.take(sv.len() as int) =~= sv);
    }
    let ghost uses = e0 + sv.map_values(|s: Seq<char>| (s, mid@, "uses_move"@));
    let ghost pairs = Seq::new(
        if sv.len() == 0 {
            0
        } else {
            (sv.len() - 1) as nat
        },
        |i: int| (sv[i], sv[i + 1], "parallels"@),
    );
    let mut w: usize = 1;
    while w < sids.len()
        invariant
            1 <= w,
            w <= sids@.len() || w == 1,
            sv == sids@.map_values(|s: String| s@),
            uses == e0 + sv.map_values(|s: Seq<char>| (s, mid@, "uses_move"@)),
            e0 == old(edges)@.map_values(|e: MindmapEdge| edge_view(e)),
            pairs == Seq::new(
                if sv.len() == 0 {
                    0
                } else {
                    (sv.len() - 1) as nat
                },
                |i: int| (sv[i], sv[i + 1], "parallels"@),
            ),
            edges@.map_values(|e: MindmapEdge| edge_view(e)) == uses + pairs.take(w - 1),
        decreases sids.len() - w,
    {
        let ghost before = edges@.map_values(|e: MindmapEdge| edge_view(e));
        let a = sids[w - 1].clone();
        let b = sids[w].clone();
        let e = edge(a, b, "parallels");
        proof {
            assert(pairs[w - 1] == (sv[w - 1], sv[w as int], "parallels"@));
            assert(edge_view(e) == pairs[w - 1]);
        }
        edges.push(e);
        proof {
            assert(pairs.take(w as int) =~= pairs.take(w - 1).push(pairs[w - 1]));
            assert(edges@.map_values(|e: MindmapEdge| edge_view(e)) =~= before.push(pairs[w - 1]));
        }
        w = w + 1;
    }
    proof {
        if sv.len() > 0 {
            assert(w == sv.len());
            assert(pairs.len() == w - 1);
            assert(pairs.take(w - 1) =~= pairs);
        } else {
            assert(pairs.take(0) =~= pairs);
        }
        let g = group_edges(sv, mid@);
        assert(g == sv.map_values(|s: Seq<char>| (s, mid@, "uses_move"@)) + pairs);
        assert(uses + pairs =~= e0 + g);
        assert(edges@.map_values(|e: MindmapEdge| edge_view(e)) == uses + pairs);
        assert(sids@.map_values(|s: String| s@) == sv);
    }
}


/// Strictly ascending: sorted, and no move twice.
pub open spec fn ascending(s: Seq<Seq<char>>) -> bool {
    forall|i: int, j: int| 0 <= i < j < s.len() ==> lex_lt(#[trigger] s[i], #[trigger] s[j])
}

proof fn lemma_insert_sorted_members(s: Seq<Seq<char>>, x: Seq<char>, k: int)
    requires
        0 <= k < insert_sorted(s, x).len(),
    ensures
        insert_sorted(s, x)[k] == x || exists|j: int| 0 <= j < s.len() && insert_sorted(s, x)[k] == s[j],
    decreases s.len(),
{
    if s.len() > 0 && s[0] != x && !lex_lt(x, s[0]) && k > 0 {
        let t = s.drop_first();
        lemma_insert_sorted_members(t, x, k - 1);
        if insert_sorted(t, x)[k - 1] != x {
            let j = choose|j: int| 0 <= j < t.len() && insert_sorted(t, x)[k - 1] == t[j];
            assert(insert_sorted(s, x)[k] == s[j + 1]);
        }
    } else if s.len() > 0 && s[0] == x {
        assert(insert_sorted(s, x)[k] == s[k]);
    } else if s.len() > 0 && lex_lt(x, s[0]) && k > 0 {
        assert(insert_sorted(s, x)[k] == s[k - 1]);
    }
}

proof fn lemma_insert_sorted_ascending(s: Seq<Seq<char>>, x: Seq<char>)
    requires
        ascending(s),
    ensures
        ascending(insert_sorted(s, x)),
    decreases s.len(),
{
    let r = insert_sorted(s, x);
    if s.len() == 0 || s[0] == x {
    } else if lex_lt(x, s[0]) {
        assert forall|i: int, j: int| 0 <= i < j < r.len() implies lex_lt(#[trigger] r[i], #[trigger] r[j]) by {
            if i == 0 {
                assert(r[j] == s[j - 1]);
                if j > 1 {
                    lemma_lex_trans(x, s[0], s[j - 1]);
                }
            } else {
                assert(r[i] == s[i - 1] && r[j] == s[j - 1]);
            }
        }
    } else {
        lemma_lex_total(s[0], x);
        let t = s.drop_first();
        assert(ascending(t)) by {
            assert forall|i: int, j: int| 0 <= i < j < t.len() implies lex_lt(#[trigger] t[i], #[trigger] t[j]) by {
                assert(t[i] == s[i + 1] && t[j] == s[j + 1]);
            }
        }
        lemma_insert_sorted_ascending(t, x);
        assert forall|i: int, j: int| 0 <= i < j < r.len() implies lex_lt(#[trigger] r[i], #[trigger] r[j]) by {
            if i == 0 {
                assert(r[j] == insert_sorted(t, x)[j - 1]);
                lemma_insert_sorted_members(t, x, j - 1);
                if insert_sorted(t, x)[j - 1] != x {
                    let k = choose|k: int| 0 <= k < t.len() && insert_sorted(t, x)[j - 1] == t[k];
                    assert(t[k] == s[k + 1]);
                }
            } else {
                assert(r[i] == insert_sorted(t, x)[i - 1] && r[j] == insert_sorted(t, x)[j - 1]);
            }
        }
    }
}

/// The move layer lists each distinct move once, in ascending order.
pub proof fn lemma_move_list_ascending(ps: Seq<Passage>)
    ensures
        ascending(move_list(ps)),
    decreases ps.len(),
{
    if ps.len() > 0 {
        lemma_move_list_ascending(ps.drop_last());
        if has_move(ps.last()) {
            lemma_insert_sorted_ascending(move_list(ps.drop_last()), ps.last().move_@);
        }
    }
}

/// Sayings not yet annotated with a move form no move layer: the mind-map is the topic, its
/// sayings, and a `matches` edge to each.
pub proof fn lemma_unannotated_has_no_move_layer(topic: Seq<char>, ps: Seq<Passage>)
    requires
        forall|i: int| 0 <= i < ps.len() ==> !has_move(#[trigger] ps[i]),
    ensures
        move_list(ps).len() == 0,
        topic_nodes(topic, ps).len() == ps.len() + 1,
        topic_edges(topic, ps) == ps.map_values(|p: Passage| (topic_id(topic), saying_id(p), "matches"@)),
    decreases ps.len(),
{
    if ps.len() > 0 {
        let init = ps.drop_last();
        assert forall|i: int| 0 <= i < init.len() implies !has_move(#[trigger] init[i]) by {
            assert(init[i] == ps[i]);
        }
        lemma_unannotated_has_no_move_layer(topic, init);
        assert(!has_move(ps[ps.len() - 1]));
    }
    assert(move_edges(ps, move_list(ps)) =~= Seq::empty());
    assert(topic_edges(topic, ps) =~= ps.map_values(|p: Passage| (topic_id(topic), saying_id(p), "matches"@)));
}

/// The `parallels` edge between the `i`-th and the next saying of move `m`, in passage order.
pub open spec fn parallel_pair(ps: Seq<Passage>, m: Seq<char>, i: int) -> (Seq<char>, Seq<char>, Seq<char>) {
    (members(ps, m)[i], members(ps, m)[i + 1], "parallels"@)
}

proof fn lemma_edge_kinds_differ()
    ensures
        "uses_move"@ != "parallels"@,
        "matches"@ != "parallels"@,
{
    reveal_strlit("uses_move");
    reveal_strlit("parallels");
    reveal_strlit("matches");
    assert("uses_move"@[0] != "parallels"@[0]);
    assert("matches"@.len() != "parallels"@.len());
}

/// The edges of one move's group that link sayings are its consecutive pairs.
proof fn lemma_group_parallels(sids: Seq<Seq<char>>, mid: Seq<char>)
    ensures
        forall|i: int|
            0 <= i && i + 1 < sids.len() ==> group_edges(sids, mid).contains(
                (#[trigger] sids[i], sids[i + 1], "parallels"@),
            ),
        forall|e: (Seq<char>, Seq<char>, Seq<char>)|
            #[trigger] group_edges(sids, mid).contains(e) && e.2 == "parallels"@ ==> exists|i: int|
                0 <= i && i + 1 < sids.len() && e == (#[trigger] sids[i], sids[i + 1], "parallels"@),
{
    lemma_group_links(sids, mid);
    lemma_group_links_only(sids, mid);
}

proof fn lemma_group_links(sids: Seq<Seq<char>>, mid: Seq<char>)
    ensures
        forall|i: int|
            0 <= i && i + 1 < sids.len() ==> group_edges(sids, mid).contains(
                (#[trigger] sids[i], sids[i + 1], "parallels"@),
            ),
{
    let g = group_edges(sids, mid);
    let n = sids.len() as int;
    assert forall|i: int| 0 <= i && i + 1 < sids.len() implies g.contains(
        (#[trigger] sids[i], sids[i + 1], "parallels"@),
    ) by {
        assert(g[n + i] == (sids[i], sids[i + 1], "parallels"@));
    }
}

proof fn lemma_group_links_only(sids: Seq<Seq<char>>, mid: Seq<char>)
    ensures
        forall|e: (Seq<char>, Seq<char>, Seq<char>)|
            #[trigger] group_edges(sids, mid).contains(e) && e.2 == "parallels"@ ==> exists|i: int|
                0 <= i && i + 1 < sids.len() && e == (#[trigger] sids[i], sids[i + 1], "parallels"@),
{
    lemma_edge_kinds_differ();
    let g = group_edges(sids, mid);
    let n = sids.len() as int;
    assert forall|e: (Seq<char>, Seq<char>, Seq<char>)| #[trigger] g.contains(e) && e.2 == "parallels"@ implies exists|i: int|
        0 <= i && i + 1 < sids.len() && e == (#[trigger] sids[i], sids[i + 1], "parallels"@) by {
        let k = choose|k: int| 0 <= k < g.len() && g[k] == e;
        if k < n {
            assert(g[k].2 == "uses_move"@);
        } else {
            assert(g[k] == (sids[k - n], sids[k - n + 1], "parallels"@));
        }
    }
}

/// What the move layer holds is what the groups of its moves hold.
proof fn lemma_move_edges_members(ps: Seq<Passage>, moves: Seq<Seq<char>>)
    ensures
        forall|k: int, e: (Seq<char>, Seq<char>, Seq<char>)|
            0 <= k < moves.len() && #[trigger] group_edges(members(ps, moves[k]), move_id(moves[k])).contains(e)
                ==> move_edges(ps, moves).contains(e),
        forall|e: (Seq<char>, Seq<char>, Seq<char>)|
            #[trigger] move_edges(ps, moves).contains(e) ==> exists|k: int|
                0 <= k < moves.len() && #[trigger] group_edges(members(ps, moves[k]), move_id(moves[k])).contains(e),
    decreases moves.len(),
{
    if moves.len() > 0 {
        let init = moves.drop_last();
        lemma_move_edges_members(ps, init);
        let a = move_edges(ps, init);
        let b = group_edges(members(ps, moves.last()), move_id(moves.last()));
        assert(move_edges(ps, moves) == a + b);
        assert forall|k: int, e: (Seq<char>, Seq<char>, Seq<char>)|
            0 <= k < moves.len() && #[trigger] group_edges(members(ps, moves[k]), move_id(moves[k])).contains(e)
                implies move_edges(ps, moves).contains(e) by {
            if k < init.len() {
                assert(init[k] == moves[k]);
                assert(group_edges(members(ps, init[k]), move_id(init[k])).contains(e));
                let t = choose|t: int| 0 <= t < a.len() && a[t] == e;
                assert((a + b)[t] == e);
            } else {
                let t = choose|t: int| 0 <= t < b.len() && b[t] == e;
                assert((a + b)[a.len() + t] == e);
            }
        }
        assert forall|e: (Seq<char>, Seq<char>, Seq<char>)|
            #[trigger] move_edges(ps, moves).contains(e) implies exists|k: int|
                0 <= k < moves.len() && #[trigger] group_edges(members(ps, moves[k]), move_id(moves[k])).contains(e) by {
            let t = choose|t: int| 0 <= t < (a + b).len() && (a + b)[t] == e;
            if t < a.len() {
                assert(a[t] == e);
                assert(a.contains(e));
                let k = choose|k: int|
                    0 <= k < init.len() && #[trigger] group_edges(members(ps, init[k]), move_id(init[k])).contains(e);
                assert(init[k] == moves[k]);
                assert(group_edges(members(ps, moves[k]), move_id(moves[k])).contains(e));
            } else {
                assert(b[t - a.len()] == e);
                assert(moves[moves.len() - 1] == moves.last());
                assert(group_edges(members(ps, moves[moves.len() - 1]), move_id(moves[moves.len() - 1])).contains(e));
            }
        }
    }
}

/// `parallels` edges link exactly the consecutive sayings of each move in passage order:
/// every two consecutive sayings sharing a move are linked, and every `parallels` edge is
/// such a pair.
pub proof fn lemma_parallels_link_consecutive_sayings(topic: Seq<char>, ps: Seq<Passage>)
    ensures
        forall|m: Seq<char>, i: int|
            move_list(ps).contains(m) && 0 <= i && i + 1 < members(ps, m).len() ==> topic_edges(
                topic,
                ps,
            ).contains(#[trigger] parallel_pair(ps, m, i)),
        forall|e: (Seq<char>, Seq<char>, Seq<char>)|
            #[trigger] topic_edges(topic, ps).contains(e) && e.2 == "parallels"@ ==> exists|m: Seq<char>, i: int|
                move_list(ps).contains(m) && 0 <= i && i + 1 < members(ps, m).len() && e == #[trigger] parallel_pair(
                    ps,
                    m,
                    i,
                ),
{
    lemma_edge_kinds_differ();
    let moves = move_list(ps);
    let front = ps.map_values(|p: Passage| (topic_id(topic), saying_id(p), "matches"@));
    let layer = move_edges(ps, moves);
    lemma_move_edges_members(ps, moves);
    assert(topic_edges(topic, ps) == front + layer);
    assert forall|m: Seq<char>, i: int|
        moves.contains(m) && 0 <= i && i + 1 < members(ps, m).len() implies topic_edges(topic, ps).contains(
        #[trigger] parallel_pair(ps, m, i),
    ) by {
        let k = choose|k: int| 0 <= k < moves.len() && moves[k] == m;
        lemma_group_parallels(members(ps, m), move_id(m));
        let sids = members(ps, m);
        assert(group_edges(sids, move_id(m)).contains((sids[i], sids[i + 1], "parallels"@)));
        assert(group_edges(members(ps, moves[k]), move_id(moves[k])).contains(parallel_pair(ps, m, i)));
        assert(layer.contains(parallel_pair(ps, m, i)));
        let t = choose|t: int| 0 <= t < layer.len() && layer[t] == parallel_pair(ps, m, i);
        assert((front + layer)[front.len() + t] == parallel_pair(ps, m, i));
    }
    assert forall|e: (Seq<char>, Seq<char>, Seq<char>)|
        #[trigger] topic_edges(topic, ps).contains(e) && e.2 == "parallels"@ implies exists|m: Seq<char>, i: int|
            moves.contains(m) && 0 <= i && i + 1 < members(ps, m).len() && e == #[trigger] parallel_pair(ps, m, i) by {
        let t = choose|t: int| 0 <= t < (front + layer).len() && (front + layer)[t] == e;
        if t < front.len() {
            assert(front[t] == e);
        } else {
            assert(layer[t - front.len()] == e);
            assert(layer.contains(e));
            let k = choose|k: int|
                0 <= k < moves.len() && #[trigger] group_edges(members(ps, moves[k]), move_id(moves[k])).contains(e);
            let m = moves[k];
            lemma_group_parallels(members(ps, m), move_id(m));
            let sids = members(ps, m);
            assert(group_edges(sids, move_id(m)).contains(e));
            let i = choose|i: int| 0 <= i && i + 1 < sids.len() && e == (#[trigger] sids[i], sids[i + 1], "parallels"@);
            assert(e == parallel_pair(ps, m, i));
            assert(moves.contains(m));
        }
    }
}

} // verus!
