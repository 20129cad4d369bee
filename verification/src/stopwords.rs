//! Query-side stop-word stripping for retrieval.
//!
//! Retrieval matches with OR semantics, so common function words are dropped from the
//! query before it reaches full-text search: a question like "what about cryptocurrency"
//! must not match on "what" / "about" and slip past the coverage gate. Only the query is
//! touched, never the stored text.
use vstd::prelude::*;
use crate::text::{chars_of, chars_eq, join, lowercase, alphanumeric, is_alphanumeric, string_from_chars, to_lowercase, join_strings};

verus! {

/// The common English function words with no retrieval value.
pub open spec fn stop_word(w: Seq<char>) -> bool {
    ||| w == "a"@
    ||| w == "about"@
    ||| w == "above"@
    ||| w == "after"@
    ||| w == "again"@
    ||| w == "against"@
    ||| w == "all"@
    ||| w == "am"@
    ||| w == "an"@
    ||| w == "and"@
    ||| w == "any"@
    ||| w == "are"@
    ||| w == "as"@
    ||| w == "at"@
    ||| w == "be"@
    ||| w == "because"@
    ||| w == "been"@
    ||| w == "before"@
    ||| w == "being"@
    ||| w == "below"@
    ||| w == "between"@
    ||| w == "both"@
    ||| w == "but"@
    ||| w == "by"@
    ||| w == "can"@
    ||| w == "did"@
    ||| w == "do"@
    ||| w == "does"@
    ||| w == "doing"@
    ||| w == "down"@
    ||| w == "during"@
    ||| w == "each"@
    ||| w == "few"@
    ||| w == "for"@
    ||| w == "from"@
    ||| w == "further"@
    ||| w == "had"@
    ||| w == "has"@
    ||| w == "have"@
    ||| w == "having"@
    ||| w == "he"@
    ||| w == "her"@
    ||| w == "here"@
    ||| w == "hers"@
    ||| w == "him"@
    ||| w == "his"@
    ||| w == "how"@
    ||| w == "i"@
    ||| w == "if"@
    ||| w == "in"@
    ||| w == "into"@
    ||| w == "is"@
    ||| w == "it"@
    ||| w == "its"@
    ||| w == "just"@
    ||| w == "me"@
    ||| w == "more"@
    ||| w == "most"@
    ||| w == "my"@
    ||| w == "no"@
    ||| w == "nor"@
    ||| w == "not"@
    ||| w == "of"@
    ||| w == "off"@
    ||| w == "on"@
    ||| w == "once"@
    ||| w == "only"@
    ||| w == "or"@
    ||| w == "other"@
    ||| w == "our"@
    ||| w == "out"@
    ||| w == "over"@
    ||| w == "own"@
    ||| w == "same"@
    ||| w == "she"@
    ||| w == "should"@
    ||| w == "so"@
    ||| w == "some"@
    ||| w == "such"@
    ||| w == "than"@
    ||| w == "that"@
    ||| w == "the"@
    ||| w == "their"@
    ||| w == "them"@
    ||| w == "then"@
    ||| w == "there"@
    ||| w == "these"@
    ||| w == "they"@
    ||| w == "this"@
    ||| w == "those"@
    ||| w == "through"@
    ||| w == "to"@
    ||| w == "too"@
    ||| w == "under"@
    ||| w == "until"@
    ||| w == "up"@
    ||| w == "very"@
    ||| w == "was"@
    ||| w == "we"@
    ||| w == "were"@
    ||| w == "what"@
    ||| w == "when"@
    ||| w == "where"@
    ||| w == "which"@
    ||| w == "while"@
    ||| w == "who"@
    ||| w == "whom"@
    ||| w == "why"@
    ||| w == "will"@
    ||| w == "with"@
    ||| w == "would"@
    ||| w == "you"@
    ||| w == "your"@
}

/// Whether `word` (already lowercased) is one of the stop words.
pub fn is_stop_word(word: &str) -> (b: bool)
    ensures
        b == stop_word(word@),
{
    let w = chars_of(word);
    is_stop_word_chars(&w)
}

fn is_stop_word_chars(w: &Vec<char>) -> (b: bool)
    ensures
        b == stop_word(w@),
{
    chars_eq(w, "a") || chars_eq(w, "about") || chars_eq(w, "above") || chars_eq(w, "after") || chars_eq(w, "again") || chars_eq(w, "against") || chars_eq(w, "all") || chars_eq(w, "am") || chars_eq(w, "an") || chars_eq(w, "and") || chars_eq(w, "any") || chars_eq(w, "are") || chars_eq(w, "as") || chars_eq(w, "at") || chars_eq(w, "be") || chars_eq(w, "because") || chars_eq(w, "been") || chars_eq(w, "before") || chars_eq(w, "being") || chars_eq(w, "below") || chars_eq(w, "between") || chars_eq(w, "both") || chars_eq(w, "but") || chars_eq(w, "by") || chars_eq(w, "can") || chars_eq(w, "did") || chars_eq(w, "do") || chars_eq(w, "does") || chars_eq(w, "doing") || chars_eq(w, "down") || chars_eq(w, "during") || chars_eq(w, "each") || chars_eq(w, "few") || chars_eq(w, "for") || chars_eq(w, "from") || chars_eq(w, "further") || chars_eq(w, "had") || chars_eq(w, "has") || chars_eq(w, "have") || chars_eq(w, "having") || chars_eq(w, "he") || chars_eq(w, "her") || chars_eq(w, "here") || chars_eq(w, "hers") || chars_eq(w, "him") || chars_eq(w, "his") || chars_eq(w, "how") || chars_eq(w, "i") || chars_eq(w, "if") || chars_eq(w, "in") || chars_eq(w, "into") || chars_eq(w, "is") || chars_eq(w, "it") || chars_eq(w, "its") || chars_eq(w, "just") || chars_eq(w, "me") || chars_eq(w, "more") || chars_eq(w, "most") || chars_eq(w, "my") || chars_eq(w, "no") || chars_eq(w, "nor") || chars_eq(w, "not") || chars_eq(w, "of") || chars_eq(w, "off") || chars_eq(w, "on") || chars_eq(w, "once") || chars_eq(w, "only") || chars_eq(w, "or") || chars_eq(w, "other") || chars_eq(w, "our") || chars_eq(w, "out") || chars_eq(w, "over") || chars_eq(w, "own") || chars_eq(w, "same") || chars_eq(w, "she") || chars_eq(w, "should") || chars_eq(w, "so") || chars_eq(w, "some") || chars_eq(w, "such") || chars_eq(w, "than") || chars_eq(w, "that") || chars_eq(w, "the") || chars_eq(w, "their") || chars_eq(w, "them") || chars_eq(w, "then") || chars_eq(w, "there") || chars_eq(w, "these") || chars_eq(w, "they") || chars_eq(w, "this") || chars_eq(w, "those") || chars_eq(w, "through") || chars_eq(w, "to") || chars_eq(w, "too") || chars_eq(w, "under") || chars_eq(w, "until") || chars_eq(w, "up") || chars_eq(w, "very") || chars_eq(w, "was") || chars_eq(w, "we") || chars_eq(w, "were") || chars_eq(w, "what") || chars_eq(w, "when") || chars_eq(w, "where") || chars_eq(w, "which") || chars_eq(w, "while") || chars_eq(w, "who") || chars_eq(w, "whom") || chars_eq(w, "why") || chars_eq(w, "will") || chars_eq(w, "with") || chars_eq(w, "would") || chars_eq(w, "you") || chars_eq(w, "your")
}

/// The pieces of `s` between characters that are not alphanumeric (the query tokenizer),
/// built from the left like [`split_on`].
pub open spec fn split_tokens(s: Seq<char>) -> Seq<Seq<char>>
    decreases s.len(),
{
    if s.len() == 0 {
        seq![Seq::<char>::empty()]
    } else {
        let rest = split_tokens(s.drop_last());
        if !alphanumeric(s.last()) {
            rest.push(Seq::<char>::empty())
        } else {
            rest.update(rest.len() - 1, rest.last().push(s.last()))
        }
    }
}

/// Whether a query token survives stripping: non-empty, and its lowercase is no stop word.
pub open spec fn content_word(t: Seq<char>) -> bool {
    t.len() > 0 && !stop_word(lowercase(t))
}

/// The content words among the pieces, in order.
pub open spec fn content_words(pieces: Seq<Seq<char>>) -> Seq<Seq<char>>
    decreases pieces.len(),
{
    if pieces.len() == 0 {
        Seq::<Seq<char>>::empty()
    } else {
        let r = content_words(pieces.drop_last());
        if content_word(pieces.last()) {
            r.push(pieces.last())
        } else {
            r
        }
    }
}

/// What [`strip`] returns: the query's content words joined by single spaces.
pub open spec fn stripped(query: Seq<char>) -> Seq<char> {
    join(content_words(split_tokens(query)), " "@)
}

pub proof fn lemma_split_tokens_nonempty(s: Seq<char>)
    ensures
        split_tokens(s).len() >= 1,
    decreases s.len(),
{
    if s.len() > 0 {
        lemma_split_tokens_nonempty(s.drop_last());
    }
}

/// Drop stop words from `query`, returning the remaining content words joined by spaces.
/// Tokenizes on characters that are not alphanumeric and compares each token's lowercase
/// against the stop-word list. Empty when every token is a stop word. Stripping is
/// idempotent: the result strips to itself.
pub fn strip(query: &str) -> (r: String)
    ensures
        r@ == stripped(query@),
        stripped(r@) == r@,
{
    // The space that joins the kept words is itself a token boundary.
    let _space_separates = !is_alphanumeric(' ');
    proof {
        lemma_strip_idempotent(query@);
    }
    let q = chars_of(query);
    let mut words: Vec<String> = Vec::new();
    let mut cur: Vec<char> = Vec::new();
    let mut i: usize = 0;
    while i < q.len()
        invariant
            0 <= i <= q.len(),
            q@ == query@,
            cur@ == split_tokens(q@.take(i as int)).last(),
            words@.map_values(|w: String| w@) == content_words(
                split_tokens(q@.take(i as int)).drop_last(),
            ),
        decreases q.len() - i,
    {
        let ghost prev = split_tokens(q@.take(i as int));
        proof {
            lemma_split_tokens_nonempty(q@.take(i as int));
            assert(q@.take(i + 1).drop_last() =~= q@.take(i as int));
            assert(q@.take(i + 1).last() == q@[i as int]);
        }
        let c = q[i];
        if !is_alphanumeric(c) {
            let piece = cur;
            cur = Vec::new();
            let keep = keep_token(&piece);
            let ghost before = words@.map_values(|w: String| w@);
            if keep {
                words.push(string_from_chars(piece.as_slice()));
                proof {
                    assert(words@.map_values(|w: String| w@) =~= before.push(piece@));
                }
            }
            proof {
                let next = split_tokens(q@.take(i + 1));
                assert(next == prev.push(Seq::<char>::empty()));
                assert(next.drop_last() =~= prev);
                assert(prev.last() == piece@);
            }
        } else {
            cur.push(c);
            proof {
                let next = split_tokens(q@.take(i + 1));
                assert(next.drop_last() =~= prev.drop_last());
            }
        }
        i = i + 1;
    }
    proof {
        lemma_split_tokens_nonempty(q@);
        assert(q@.take(q@.len() as int) =~= q@);
    }
    let keep = keep_token(&cur);
    let ghost before = words@.map_values(|w: String| w@);
    if keep {
        words.push(string_from_chars(cur.as_slice()));
        proof {
            assert(words@.map_values(|w: String| w@) =~= before.push(cur@));
        }
    }
    proof {
        let all = split_tokens(q@);
        assert(all.drop_last().push(all.last()) =~= all);
    }
    join_strings(&words, " ")
}

fn keep_token(t: &Vec<char>) -> (b: bool)
    ensures
        b == content_word(t@),
{
    if t.len() == 0 {
        return false;
    }
    let s = string_from_chars(t.as_slice());
    let lower = to_lowercase(s.as_str());
    let lv = chars_of(lower.as_str());
    !is_stop_word_chars(&lv)
}

/// Every character of `w` is alphanumeric: a whole query token.
pub open spec fn token_chars(w: Seq<char>) -> bool {
    forall|i: int| 0 <= i < w.len() ==> alphanumeric(#[trigger] w[i])
}

/// Appending token characters extends the last piece.
proof fn lemma_split_tokens_extend(x: Seq<char>, w: Seq<char>)
    requires
        token_chars(w),
    ensures
        split_tokens(x + w) == split_tokens(x).update(
            split_tokens(x).len() - 1,
            split_tokens(x).last() + w,
        ),
    decreases w.len(),
{
    lemma_split_tokens_nonempty(x);
    if w.len() == 0 {
        assert(x + w =~= x);
        assert(split_tokens(x).last() + w =~= split_tokens(x).last());
        assert(split_tokens(x).update(split_tokens(x).len() - 1, split_tokens(x).last()) =~= split_tokens(x));
    } else {
        let v = w.drop_last();
        assert(token_chars(v)) by {
            assert forall|i: int| 0 <= i < v.len() implies alphanumeric(#[trigger] v[i]) by {
                assert(v[i] == w[i]);
            }
        }
        lemma_split_tokens_extend(x, v);
        assert((x + w).drop_last() =~= x + v);
        assert((x + w).last() == w[w.len() - 1]);
        let s = split_tokens(x);
        let r = split_tokens(x + v);
        assert(r.last() == s.last() + v);
        assert(r.last().push(w.last()) =~= s.last() + w);
        assert(split_tokens(x + w) =~= s.update(s.len() - 1, s.last() + w));
    }
}

/// Token-character words joined by a non-alphanumeric space split back into those words.
proof fn lemma_split_join(ws: Seq<Seq<char>>)
    requires
        ws.len() >= 1,
        forall|k: int| 0 <= k < ws.len() ==> token_chars(#[trigger] ws[k]),
        !alphanumeric(' '),
    ensures
        split_tokens(join(ws, " "@)) == ws,
    decreases ws.len(),
{
    reveal_strlit(" ");
    let e = Seq::<char>::empty();
    if ws.len() == 1 {
        lemma_split_tokens_extend(e, ws[0]);
        assert(e + ws[0] =~= ws[0]);
        assert(split_tokens(e) == seq![e]);
        assert(e + ws[0] =~= ws[0]);
        assert(seq![e].update(0, e + ws[0]) =~= ws);
    } else {
        let init = ws.drop_last();
        assert forall|k: int| 0 <= k < init.len() implies token_chars(#[trigger] init[k]) by {
            assert(init[k] == ws[k]);
        }
        lemma_split_join(init);
        let x = join(init, " "@) + " "@;
        assert(x.drop_last() =~= join(init, " "@));
        assert(x.last() == ' ');
        assert(split_tokens(x) == init.push(e));
        assert(token_chars(ws[ws.len() - 1]));
        lemma_split_tokens_extend(x, ws.last());
        assert(init.push(e).update(init.len() as int, e + ws.last()) =~= ws);
    }
}

/// Every piece of a split holds token characters only.
proof fn lemma_split_tokens_chars(q: Seq<char>)
    ensures
        forall|k: int| 0 <= k < split_tokens(q).len() ==> token_chars(#[trigger] split_tokens(q)[k]),
    decreases q.len(),
{
    if q.len() > 0 {
        lemma_split_tokens_chars(q.drop_last());
        lemma_split_tokens_nonempty(q.drop_last());
        let rest = split_tokens(q.drop_last());
        if alphanumeric(q.last()) {
            let n = rest.len() - 1;
            assert(token_chars(rest[n]));
            let w = rest.last().push(q.last());
            assert forall|i: int| 0 <= i < w.len() implies alphanumeric(#[trigger] w[i]) by {
                if i < rest.last().len() {
                    assert(w[i] == rest[n][i]);
                }
            }
            assert forall|k: int| 0 <= k < split_tokens(q).len() implies token_chars(
                #[trigger] split_tokens(q)[k],
            ) by {
                if k < n {
                    assert(split_tokens(q)[k] == rest[k]);
                } else {
                    assert(split_tokens(q)[k] == w);
                }
            }
        } else {
            assert forall|k: int| 0 <= k < split_tokens(q).len() implies token_chars(
                #[trigger] split_tokens(q)[k],
            ) by {
                if k < rest.len() {
                    assert(split_tokens(q)[k] == rest[k]);
                } else {
                    assert(split_tokens(q)[k] =~= Seq::<char>::empty());
                }
            }
        }
    }
}

/// The content words of token pieces are content words made of token characters.
proof fn lemma_content_words_kept(ps: Seq<Seq<char>>)
    requires
        forall|k: int| 0 <= k < ps.len() ==> token_chars(#[trigger] ps[k]),
    ensures
        forall|k: int| 0 <= k < content_words(ps).len() ==> token_chars(#[trigger] content_words(ps)[k])
            && content_word(content_words(ps)[k]),
    decreases ps.len(),
{
    if ps.len() > 0 {
        let init = ps.drop_last();
        assert forall|k: int| 0 <= k < init.len() implies token_chars(#[trigger] init[k]) by {
            assert(init[k] == ps[k]);
        }
        lemma_content_words_kept(init);
        assert(token_chars(ps[ps.len() - 1]));
        let r = content_words(init);
        if content_word(ps.last()) {
            assert forall|k: int| 0 <= k < content_words(ps).len() implies token_chars(
                #[trigger] content_words(ps)[k],
            ) && content_word(content_words(ps)[k]) by {
                if k < r.len() {
                    assert(content_words(ps)[k] == r[k]);
                } else {
                    assert(content_words(ps)[k] == ps[ps.len() - 1]);
                }
            }
        }
    }
}

/// Content words are kept as they are.
proof fn lemma_content_words_fixed(ws: Seq<Seq<char>>)
    requires
        forall|k: int| 0 <= k < ws.len() ==> content_word(#[trigger] ws[k]),
    ensures
        content_words(ws) == ws,
    decreases ws.len(),
{
    if ws.len() > 0 {
        let init = ws.drop_last();
        assert forall|k: int| 0 <= k < init.len() implies content_word(#[trigger] init[k]) by {
            assert(init[k] == ws[k]);
        }
        lemma_content_words_fixed(init);
        assert(content_word(ws[ws.len() - 1]));
        assert(init.push(ws.last()) =~= ws);
    }
}

/// Stripping is idempotent: a stripped query strips to itself. This rests on the space
/// that joins the kept words not being alphanumeric, as `char::is_alphanumeric` documents
/// and [`crate::text::is_alphanumeric`] states.
pub proof fn lemma_strip_idempotent(query: Seq<char>)
    requires
        !alphanumeric(' '),
    ensures
        stripped(stripped(query)) == stripped(query),
{
    let ws = content_words(split_tokens(query));
    lemma_split_tokens_chars(query);
    lemma_content_words_kept(split_tokens(query));
    if ws.len() == 0 {
        assert(stripped(query) =~= Seq::<char>::empty());
        assert(split_tokens(Seq::<char>::empty()) == seq![Seq::<char>::empty()]);
        let one = seq![Seq::<char>::empty()];
        assert(one.drop_last() =~= Seq::<Seq<char>>::empty());
        assert(!content_word(one.last()));
        assert(content_words(one) == content_words(one.drop_last()));
        assert(content_words(one) =~= Seq::<Seq<char>>::empty());
    } else {
        lemma_split_join(ws);
        lemma_content_words_fixed(ws);
    }
}

/// Every word of the stop-word list is a stop word, whatever its casing in the query: a
/// token whose lowercase is one of them is never kept. (The list: the common English
/// function words, from "a" to "your".)
pub proof fn lemma_listed_words_are_stop_words(t: Seq<char>)
    ensures
        stop_word("a"@),
        stop_word("about"@),
        stop_word("above"@),
        stop_word("after"@),
        stop_word("again"@),
        stop_word("against"@),
        stop_word("all"@),
        stop_word("am"@),
        stop_word("an"@),
        stop_word("and"@),
        stop_word("any"@),
        stop_word("are"@),
        stop_word("as"@),
        stop_word("at"@),
        stop_word("be"@),
        stop_word("because"@),
        stop_word("been"@),
        stop_word("before"@),
        stop_word("being"@),
        stop_word("below"@),
        stop_word("between"@),
        stop_word("both"@),
        stop_word("but"@),
        stop_word("by"@),
        stop_word("can"@),
        stop_word("did"@),
        stop_word("do"@),
        stop_word("does"@),
        stop_word("doing"@),
        stop_word("down"@),
        stop_word("during"@),
        stop_word("each"@),
        stop_word("few"@),
        stop_word("for"@),
        stop_word("from"@),
        stop_word("further"@),
        stop_word("had"@),
        stop_word("has"@),
        stop_word("have"@),
        stop_word("having"@),
        stop_word("he"@),
        stop_word("her"@),
        stop_word("here"@),
        stop_word("hers"@),
        stop_word("him"@),
        stop_word("his"@),
        stop_word("how"@),
        stop_word("i"@),
        stop_word("if"@),
        stop_word("in"@),
        stop_word("into"@),
        stop_word("is"@),
        stop_word("it"@),
        stop_word("its"@),
        stop_word("just"@),
        stop_word("me"@),
        stop_word("more"@),
        stop_word("most"@),
        stop_word("my"@),
        stop_word("no"@),
        stop_word("nor"@),
        stop_word("not"@),
        stop_word("of"@),
        stop_word("off"@),
        stop_word("on"@),
        stop_word("once"@),
        stop_word("only"@),
        stop_word("or"@),
        stop_word("other"@),
        stop_word("our"@),
        stop_word("out"@),
        stop_word("over"@),
        stop_word("own"@),
        stop_word("same"@),
        stop_word("she"@),
        stop_word("should"@),
        stop_word("so"@),
        stop_word("some"@),
        stop_word("such"@),
        stop_word("than"@),
        stop_word("that"@),
        stop_word("the"@),
        stop_word("their"@),
        stop_word("them"@),
        stop_word("then"@),
        stop_word("there"@),
        stop_word("these"@),
        stop_word("they"@),
        stop_word("this"@),
        stop_word("those"@),
        stop_word("through"@),
        stop_word("to"@),
        stop_word("too"@),
        stop_word("under"@),
        stop_word("until"@),
        stop_word("up"@),
        stop_word("very"@),
        stop_word("was"@),
        stop_word("we"@),
        stop_word("were"@),
        stop_word("what"@),
        stop_word("when"@),
        stop_word("where"@),
        stop_word("which"@),
        stop_word("while"@),
        stop_word("who"@),
        stop_word("whom"@),
        stop_word("why"@),
        stop_word("will"@),
        stop_word("with"@),
        stop_word("would"@),
        stop_word("you"@),
        stop_word("your"@),
        stop_word(lowercase(t)) ==> !content_word(t),
{
}

} // verus!
