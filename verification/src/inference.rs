//! Generation requests, the engine interface, and the deterministic mock engine and
//! embedder that let the rest of the system run without a model.
use vstd::prelude::*;
use vstd::string::StringSliceAdditionalSpecFns;
use vstd::utf8::encode_utf8;
use crate::stopwords::split_tokens;
use crate::text::{chars_of, is_alphanumeric, lowercase, alphanumeric, string_from_chars, to_lowercase};
use crate::text::{trim, trim_str};

verus! {

/// Errors an engine reports.
#[derive(Debug, Clone)]
pub enum EngineError {
    Load(String),
    Generate(String),
    NotImplemented(String),
}

impl EngineError {
    /// The error's display text (`model load failed: ..`, `generation failed: ..`,
    /// `not yet implemented: ..`).
    pub fn message(&self) -> (r: String)
        ensures
            r@ == engine_error_text(*self),
    {
        let (head, body) = match self {
            EngineError::Load(m) => ("model load failed: ", m),
            EngineError::Generate(m) => ("generation failed: ", m),
            EngineError::NotImplemented(m) => ("not yet implemented: ", m),
        };
        let mut r = String::from_str(head);
        r.append(body.as_str());
        r
    }
}

pub open spec fn engine_error_text(e: EngineError) -> Seq<char> {
    match e {
        EngineError::Load(m) => "model load failed: "@ + m@,
        EngineError::Generate(m) => "generation failed: "@ + m@,
        EngineError::NotImplemented(m) => "not yet implemented: "@ + m@,
    }
}

/// A unit of streamed generation.
#[derive(Debug, Clone)]
pub enum GenChunk {
    Text(String),
    ToolCallName(String),
    ToolCallArgsDelta(String),
    Done,
}

/// Prompt and conditioning context for one generation request.
#[derive(Debug, Clone)]
pub struct GenRequest {
    pub system: String,
    pub context: String,
    pub user: String,
}

/// Text generation. Implementations produce a full completion for a request.
pub trait Engine {
    fn generate(&self, req: &GenRequest) -> Result<String, EngineError>;
}

/// The streaming adapter's terminal stream, until the runtime streams: just `Done`.
pub fn empty_stream() -> (r: Vec<GenChunk>)
    ensures
        r@.len() == 1,
        r@[0] is Done,
{
    let mut v = Vec::new();
    v.push(GenChunk::Done);
    v
}

/// A deterministic stand-in for the generation engine: it restates the user ask, marked as
/// grounded when context was supplied, and never invents.
#[derive(Debug, Default, Clone, Copy)]
pub struct MockEngine;

/// What the mock engine answers: an error for a blank ask; otherwise the trimmed ask behind
/// `(mock) `, itself behind a grounding marker when the context is not blank.
pub open spec fn mock_reply(system: Seq<char>, context: Seq<char>, user: Seq<char>) -> Option<Seq<char>> {
    if trim(user).len() == 0 {
        None
    } else if trim(context).len() > 0 {
        Some("[grounded on retrieved context] "@ + "(mock) "@ + trim(user))
    } else {
        Some("(mock) "@ + trim(user))
    }
}

impl MockEngine {
    pub fn new() -> (e: Self)
        ensures
            e == MockEngine,
    {
        MockEngine
    }
}

impl Engine for MockEngine {
    fn generate(&self, req: &GenRequest) -> (r: Result<String, EngineError>)
        ensures
            match mock_reply(req.system@, req.context@, req.user@) {
                None => r matches Err(EngineError::Generate(m)) && m@ == "empty user prompt"@,
                Some(t) => r matches Ok(s) && s@ == t,
            },
    {
        let user = trim_str(req.user.as_str());
        if user.as_str().is_empty() {
            return Err(EngineError::Generate(String::from_str("empty user prompt")));
        }
        let context = trim_str(req.context.as_str());
        let mut out = String::new();
        if !context.as_str().is_empty() {
            out.append("[grounded on retrieved context] ");
        }
        out.append("(mock) ");
        out.append(user.as_str());
        Ok(out)
    }
}

/// Embedding dimension the mock embedder produces; equals the store's index dimension.
pub const MOCK_EMBEDDING_DIM: usize = 768;

/// The FNV-1a offset basis and prime.
pub const FNV_OFFSET: u64 = 0xcbf29ce484222325;
pub const FNV_PRIME: u64 = 0x100000001b3;

/// FNV-1a over bytes: xor each byte in, then multiply by the prime, wrapping.
pub open spec fn fnv1a_spec(bytes: Seq<u8>) -> u64
    decreases bytes.len(),
{
    if bytes.len() == 0 {
        FNV_OFFSET
    } else {
        ((fnv1a_spec(bytes.drop_last()) ^ (bytes.last() as u64)) as int * FNV_PRIME as int
            % 0x1_0000_0000_0000_0000) as u64
    }
}

/// FNV-1a hash of a string's UTF-8 bytes — small, deterministic, no RNG.
pub fn fnv1a(s: &str) -> (h: u64)
    ensures
        h == fnv1a_spec(encode_utf8(s@)),
{
    let bytes = s.as_bytes();
    let mut hash: u64 = FNV_OFFSET;
    let mut i: usize = 0;
    while i < bytes.len()
        invariant
            0 <= i <= bytes@.len(),
            bytes@ == s.spec_bytes(),
            hash == fnv1a_spec(bytes@.take(i as int)),
        decreases bytes.len() - i,
    {
        proof {
            assert(bytes@.take(i + 1).drop_last() =~= bytes@.take(i as int));
            assert(bytes@.take(i + 1).last() == bytes@[i as int]);
        }
        hash = hash ^ (bytes[i] as u64);
        hash = hash.wrapping_mul(FNV_PRIME);
        i = i + 1;
    }
    proof {
        assert(bytes@.take(bytes@.len() as int) =~= bytes@);
    }
    hash
}

/// A deterministic stand-in for the embedding model: a hashed bag of lowercased word tokens.
/// The library counts tokens per bucket; normalizing the counts to unit length (floating
/// point) is left to the caller.
#[derive(Debug, Default, Clone, Copy)]
pub struct MockEmbedder;

/// The bucket a token hashes to: FNV-1a of its lowercase UTF-8, modulo the dimension.
pub open spec fn bucket_of(t: Seq<char>) -> int {
    (fnv1a_spec(encode_utf8(lowercase(t))) % (MOCK_EMBEDDING_DIM as u64)) as int
}

/// How many non-empty pieces hash to bucket `b`.
pub open spec fn bucket_count(pieces: Seq<Seq<char>>, b: int) -> nat
    decreases pieces.len(),
{
    if pieces.len() == 0 {
        0
    } else {
        bucket_count(pieces.drop_last(), b) + if pieces.last().len() > 0 && bucket_of(
            pieces.last(),
        ) == b {
            1nat
        } else {
            0nat
        }
    }
}

proof fn lemma_bucket_count_bound(pieces: Seq<Seq<char>>, b: int)
    ensures
        bucket_count(pieces, b) <= pieces.len(),
    decreases pieces.len(),
{
    if pieces.len() > 0 {
        lemma_bucket_count_bound(pieces.drop_last(), b);
    }
}

impl MockEmbedder {
    pub fn new() -> (e: Self)
        ensures
            e == MockEmbedder,
    {
        MockEmbedder
    }

    /// The bag of words of `text`: for each bucket, how many of its word tokens (split at
    /// characters that are not alphanumeric, lowercased) hash there.
    pub fn token_counts(text: &str) -> (counts: Vec<u64>)
        ensures
            counts@.len() == MOCK_EMBEDDING_DIM,
            forall|b: int|
                0 <= b < MOCK_EMBEDDING_DIM ==> #[trigger] counts@[b] == bucket_count(
                    split_tokens(text@),
                    b,
                ),
    {
        let q = chars_of(text);
        let mut counts: Vec<u64> = Vec::new();
        let mut k: usize = 0;
        while k < MOCK_EMBEDDING_DIM
            invariant
                0 <= k <= MOCK_EMBEDDING_DIM,
                counts@.len() == k,
                forall|b: int| 0 <= b < k ==> counts@[b] == 0,
            decreases MOCK_EMBEDDING_DIM - k,
        {
            counts.push(0);
            k = k + 1;
        }
        let mut cur: Vec<char> = Vec::new();
        let mut i: usize = 0;
        while i < q.len()
            invariant
                0 <= i <= q.len(),
                q@ == text@,
                counts@.len() == MOCK_EMBEDDING_DIM,
                cur@ == split_tokens(q@.take(i as int)).last(),
                forall|b: int|
                    0 <= b < MOCK_EMBEDDING_DIM ==> #[trigger] counts@[b] == bucket_count(
                        split_tokens(q@.take(i as int)).drop_last(),
                        b,
                    ),
                split_tokens(q@.take(i as int)).len() <= i + 1,
            decreases q.len() - i,
        {
            let ghost prev = split_tokens(q@.take(i as int));
            proof {
                crate::stopwords::lemma_split_tokens_nonempty(q@.take(i as int));
                assert(q@.take(i + 1).drop_last() =~= q@.take(i as int));
                assert(q@.take(i + 1).last() == q@[i as int]);
            }
            let c = q[i];
            if !is_alphanumeric(c) {
                let piece = cur;
                cur = Vec::new();
                proof {
                    let next = split_tokens(q@.take(i + 1));
                    assert(next == prev.push(Seq::<char>::empty()));
                    assert(next.drop_last() =~= prev);
                    assert(prev.drop_last().push(prev.last()) =~= prev);
                }
                count_token(&mut counts, &piece, Ghost(prev.drop_last()));
                proof {
                    assert(prev.drop_last().push(piece@) =~= prev);
                }
            } else {
                cur.push(c);
                proof {
                    let next = split_tokens(q@.take(i + 1));
                    assert(next.drop_last() =~= prev.drop_last());
                }
            }
            i = i + 1;
        }
        proof {
            crate::stopwords::lemma_split_tokens_nonempty(q@);
            assert(q@.take(q@.len() as int) =~= q@);
        }
        let ghost all = split_tokens(q@);
        count_token(&mut counts, &cur, Ghost(all.drop_last()));
        proof {
            assert(all.drop_last().push(cur@) =~= all);
        }
        counts
    }
}

fn count_token(counts: &mut Vec<u64>, t: &Vec<char>, Ghost(before): Ghost<Seq<Seq<char>>>)
    requires
        old(counts)@.len() == MOCK_EMBEDDING_DIM,
        before.len() < usize::MAX,
        forall|b: int|
            0 <= b < MOCK_EMBEDDING_DIM ==> #[trigger] old(counts)@[b] == bucket_count(before, b),
    ensures
        final(counts)@.len() == MOCK_EMBEDDING_DIM,
        forall|b: int|
            0 <= b < MOCK_EMBEDDING_DIM ==> #[trigger] final(counts)@[b] == bucket_count(
                before.push(t@),
                b,
            ),
{
    proof {
        assert forall|b: int| 0 <= b < MOCK_EMBEDDING_DIM implies bucket_count(before.push(t@), b)
            == bucket_count(before, b) + if t@.len() > 0 && bucket_of(t@) == b {
            1nat
        } else {
            0nat
        } by {
            assert(before.push(t@).drop_last() =~= before);
        }
    }
    if t.len() > 0 {
        let s = string_from_chars(t.as_slice());
        let lower = to_lowercase(s.as_str());
        let h = fnv1a(lower.as_str());
        let b = (h % (MOCK_EMBEDDING_DIM as u64)) as usize;
        proof {
            lemma_bucket_count_bound(before, b as int);
        }
        let v = counts[b];
        counts.set(b, v + 1);
    }
}

} // verus!
