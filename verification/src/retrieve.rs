//! Retrieval types: a [`Passage`] is one grounded saying; a [`RetrievalSet`] is the fused
//! result the coverage gate classifies. Scores are carried as the IEEE-754 bit pattern of the
//! `f32` the retrieval engine computed; the library never does arithmetic on them.
use vstd::prelude::*;
use crate::prompt::views;
use crate::text::str_eq;

verus! {

/// One retrievable saying. `ref_` must survive to the cited answer.
#[derive(Debug, Clone)]
pub struct Passage {
    pub id: String,
    pub ref_: String,
    pub book_author: String,
    pub text_original: String,
    /// Modern rendering; may hold a machine draft used only for retrieval indexing. Never
    /// displayed and never handed to generation.
    pub text_modern: String,
    pub context: String,
    pub location: String,
    pub occasion: String,
    /// Reasoning move id (M01..M18), empty until the row is annotated.
    pub move_: String,
    pub translation: String,
    /// Life-domain tags: retrieval facets, never displayed.
    pub domains: Vec<String>,
    /// Governing principles the saying establishes: retrieval facets feeding the
    /// low-confidence principle bridge.
    pub principles: Vec<String>,
    /// Fused retrieval score as `f32` bits; `None` for stored records.
    pub score_bits: Option<u32>,
}

/// One line of the RAG corpus file: the ingest shape.
#[derive(Debug, Clone)]
pub struct RagRecord {
    pub id: String,
    pub ref_: String,
    pub book_author: String,
    pub text_original: String,
    pub text_modern: String,
    pub context: String,
    pub location: String,
    pub occasion: String,
    pub move_: String,
    pub translation: String,
}

/// The fused, ranked result of one retrieval.
#[derive(Debug, Clone)]
pub struct RetrievalSet {
    pub passages: Vec<Passage>,
    /// How many independent retrieval legs ranked the top fused passage.
    pub top_legs_matched: u8,
}

impl RetrievalSet {
    /// The top passage's fused score, as `f32` bits; zero when there is none or it is unscored.
    pub fn top_score(&self) -> (bits: u32)
        ensures
            bits == (if self.passages@.len() > 0 {
                match self.passages@[0].score_bits {
                    Some(b) => b,
                    None => 0u32,
                }
            } else {
                0u32
            }),
    {
        if self.passages.len() > 0 {
            match self.passages[0].score_bits {
                Some(b) => b,
                None => 0,
            }
        } else {
            0
        }
    }

    /// The empty retrieval: no passages, no legs.
    pub fn empty() -> (s: Self)
        ensures
            s.passages@.len() == 0,
            s.top_legs_matched == 0,
    {
        RetrievalSet { passages: Vec::new(), top_legs_matched: 0 }
    }
}

/// One episodic memory: a fact about the user and the relationship, never about Jesus.
#[derive(Debug, Clone)]
pub struct Memory {
    pub id: String,
    /// `observation` | `reflection` | `preference`.
    pub kind: String,
    /// The relationship key (user id, else session id).
    pub scope: String,
    pub text: String,
    pub importance: i64,
    /// Timestamp the store stamped at record time.
    pub at: String,
    /// Citations from the reply this observation came from.
    pub refs: Vec<String>,
}

/// One retrieved Tanakh verse: his source material, not his words.
#[derive(Debug, Clone)]
pub struct SourcePassage {
    pub ref_: String,
    pub text: String,
    pub book: String,
    /// `torah` | `prophets` | `writings`.
    pub category: String,
    pub translation: String,
    pub score_bits: Option<u32>,
}

/// One retrieved Gospel-narrative passage: what the record shows he did, not his words.
#[derive(Debug, Clone)]
pub struct NarrativePassage {
    pub ref_: String,
    pub text: String,
    pub book: String,
    /// `single` | `multiply`.
    pub attestation: String,
    pub witnesses: Vec<String>,
    pub score_bits: Option<u32>,
}


/// How many of the ranked legs list `id`.
pub open spec fn legs_listing(legs: Seq<Seq<Seq<char>>>, id: Seq<char>) -> nat
    decreases legs.len(),
{
    if legs.len() == 0 {
        0
    } else {
        legs_listing(legs.drop_last(), id) + if legs.last().contains(id) {
            1nat
        } else {
            0nat
        }
    }
}

/// How many of the ranked legs returned anything.
pub open spec fn live_leg_count(legs: Seq<Seq<Seq<char>>>) -> nat
    decreases legs.len(),
{
    if legs.len() == 0 {
        0
    } else {
        live_leg_count(legs.drop_last()) + if legs.last().len() > 0 {
            1nat
        } else {
            0nat
        }
    }
}

pub open spec fn leg_views(legs: Seq<Vec<String>>) -> Seq<Seq<Seq<char>>> {
    legs.map_values(|l: Vec<String>| l@.map_values(|s: String| s@))
}

proof fn lemma_count_le(legs: Seq<Seq<Seq<char>>>, id: Seq<char>)
    ensures
        legs_listing(legs, id) <= legs.len(),
        live_leg_count(legs) <= legs.len(),
    decreases legs.len(),
{
    if legs.len() > 0 {
        lemma_count_le(legs.drop_last(), id);
    }
}

fn lists(leg: &Vec<String>, id: &str) -> (b: bool)
    ensures
        b == leg@.map_values(|s: String| s@).contains(id@),
{
    let ghost v = leg@.map_values(|s: String| s@);
    let mut i: usize = 0;
    while i < leg.len()
        invariant
            0 <= i <= leg@.len(),
            v == leg@.map_values(|s: String| s@),
            forall|k: int| 0 <= k < i ==> v[k] != id@,
        decreases leg.len() - i,
    {
        if crate::text::str_eq(leg[i].as_str(), id) {
            assert(v[i as int] == id@);
            return true;
        }
        i = i + 1;
    }
    false
}

/// The tier signal of the coverage gate: how many independent retrieval legs ranked the
/// passage `id`.
pub fn legs_matched(legs: &[Vec<String>], id: &str) -> (n: usize)
    ensures
        n == legs_listing(leg_views(legs@), id@),
{
    let ghost lv = leg_views(legs@);
    let mut n: usize = 0;
    let mut i: usize = 0;
    while i < legs.len()
        invariant
            0 <= i <= legs@.len(),
            lv == leg_views(legs@),
            n == legs_listing(lv.take(i as int), id@),
        decreases legs.len() - i,
    {
        proof {
            assert(lv.take(i + 1).drop_last() =~= lv.take(i as int));
            assert(lv.take(i + 1).last() == lv[i as int]);
            lemma_count_le(lv.take(i as int), id@);
        }
        if lists(&legs[i], id) {
            n = n + 1;
        }
        i = i + 1;
    }
    proof {
        assert(lv.take(legs@.len() as int) =~= lv);
    }
    n
}

/// How many legs returned any candidates.
pub fn live_legs(legs: &[Vec<String>]) -> (n: usize)
    ensures
        n == live_leg_count(leg_views(legs@)),
{
    let ghost lv = leg_views(legs@);
    let mut n: usize = 0;
    let mut i: usize = 0;
    while i < legs.len()
        invariant
            0 <= i <= legs@.len(),
            lv == leg_views(legs@),
            n == live_leg_count(lv.take(i as int)),
        decreases legs.len() - i,
    {
        proof {
            assert(lv.take(i + 1).drop_last() =~= lv.take(i as int));
            assert(lv.take(i + 1).last() == lv[i as int]);
            lemma_count_le(lv.take(i as int), Seq::empty());
        }
        if legs[i].len() > 0 {
            n = n + 1;
        }
        i = i + 1;
    }
    proof {
        assert(lv.take(legs@.len() as int) =~= lv);
    }
    n
}

/// The position of the last key equal to `k`.
pub open spec fn last_key_index(keys: Seq<Seq<char>>, k: Seq<char>) -> Option<int>
    decreases keys.len(),
{
    if keys.len() == 0 {
        None
    } else if keys.last() == k {
        Some(keys.len() - 1)
    } else {
        last_key_index(keys.drop_last(), k)
    }
}

/// Whether some pair already hands out row `j`.
pub open spec fn uses_row(pairs: Seq<(int, int)>, j: int) -> bool {
    exists|t: int| 0 <= t < pairs.len() && #[trigger] pairs[t].1 == j
}

/// Fetched rows matched to the fused ranking: for each wanted key in rank order, its rank and
/// the position of the last row with that key, each row handed out once; a key with no row
/// is skipped.
pub open spec fn arranged(wanted: Seq<Seq<char>>, keys: Seq<Seq<char>>) -> Seq<(int, int)>
    decreases wanted.len(),
{
    if wanted.len() == 0 {
        Seq::empty()
    } else {
        let before = arranged(wanted.drop_last(), keys);
        match last_key_index(keys, wanted.last()) {
            Some(j) => if uses_row(before, j) {
                before
            } else {
                before.push((wanted.len() - 1, j))
            },
            None => before,
        }
    }
}

fn last_index(keys: &[String], k: &String) -> (r: Option<usize>)
    ensures
        match last_key_index(views(keys@), k@) {
            Some(j) => r matches Some(x) && x == j,
            None => r is None,
        },
{
    let ghost ks = views(keys@);
    let mut j: usize = keys.len();
    assert(ks.take(j as int) =~= ks);
    while j > 0
        invariant
            j <= keys@.len(),
            ks == views(keys@),
            last_key_index(ks, k@) == last_key_index(ks.take(j as int), k@),
        decreases j,
    {
        proof {
            assert(ks.take(j as int).drop_last() =~= ks.take(j - 1));
            assert(ks.take(j as int).last() == keys@[j - 1]@);
        }
        if str_eq(keys[j - 1].as_str(), k.as_str()) {
            return Some(j - 1);
        }
        j = j - 1;
    }
    None
}

fn taken(r: &Vec<(usize, usize)>, j: usize) -> (b: bool)
    ensures
        b == uses_row(r@.map_values(|p: (usize, usize)| (p.0 as int, p.1 as int)), j as int),
{
    let ghost s = r@.map_values(|p: (usize, usize)| (p.0 as int, p.1 as int));
    let mut t: usize = 0;
    while t < r.len()
        invariant
            t <= r@.len(),
            s == r@.map_values(|p: (usize, usize)| (p.0 as int, p.1 as int)),
            forall|u: int| 0 <= u < t ==> s[u].1 != j as int,
        decreases r.len() - t,
    {
        if r[t].1 == j {
            assert(s[t as int].1 == j as int);
            return true;
        }
        t = t + 1;
    }
    false
}

/// Match fetched rows to the fused ranking: `(rank, row)` pairs in rank order, each rank
/// paired with the last row whose key is that rank's id, no row given twice.
pub fn arrange(wanted: &[String], keys: &[String]) -> (r: Vec<(usize, usize)>)
    ensures
        r@.map_values(|p: (usize, usize)| (p.0 as int, p.1 as int)) == arranged(views(wanted@), views(keys@)),
        forall|t: int| 0 <= t < r@.len() ==> #[trigger] r@[t].0 < wanted@.len() && r@[t].1 < keys@.len(),
{
    let ghost ws = views(wanted@);
    let ghost ks = views(keys@);
    let mut r: Vec<(usize, usize)> = Vec::new();
    let mut i: usize = 0;
    assert(r@.map_values(|p: (usize, usize)| (p.0 as int, p.1 as int)) =~= arranged(ws.take(0), ks));
    while i < wanted.len()
        invariant
            i <= wanted@.len(),
            ws == views(wanted@),
            ks == views(keys@),
            r@.map_values(|p: (usize, usize)| (p.0 as int, p.1 as int)) == arranged(ws.take(i as int), ks),
            forall|t: int| 0 <= t < r@.len() ==> #[trigger] r@[t].0 < wanted@.len() && r@[t].1 < keys@.len(),
        decreases wanted.len() - i,
    {
        proof {
            assert(ws.take(i + 1).drop_last() =~= ws.take(i as int));
            assert(ws.take(i + 1).last() == wanted@[i as int]@);
        }
        let ghost before = r@.map_values(|p: (usize, usize)| (p.0 as int, p.1 as int));
        match last_index(keys, &wanted[i]) {
            Some(j) => {
                proof {
                    lemma_last_key_index_bound(ks, wanted@[i as int]@);
                }
                if !taken(&r, j) {
                    r.push((i, j));
                    assert(r@.map_values(|p: (usize, usize)| (p.0 as int, p.1 as int)) =~= before.push(
                        (i as int, j as int),
                    ));
                }
            },
            None => {},
        }
        i = i + 1;
    }
    assert(ws.take(wanted@.len() as int) =~= ws);
    r
}

proof fn lemma_last_key_index_bound(keys: Seq<Seq<char>>, k: Seq<char>)
    ensures
        last_key_index(keys, k) matches Some(j) ==> 0 <= j < keys.len(),
    decreases keys.len(),
{
    if keys.len() > 0 {
        lemma_last_key_index_bound(keys.drop_last(), k);
    }
}

} // verus!
