use jesus_twin::inference::{
    empty_stream, fnv1a, Engine, EngineError, GenChunk, GenRequest, MockEmbedder, MockEngine,
    MOCK_EMBEDDING_DIM,
};

fn req(context: &str, user: &str) -> GenRequest {
    GenRequest { system: "sys".into(), context: context.into(), user: user.into() }
}

#[test]
fn mock_engine_grounds_and_never_empty() {
    let out = MockEngine::new().generate(&req("Mark 12:17: Render...", "  render to Caesar ")).unwrap();
    assert_eq!(out, "[grounded on retrieved context] (mock) render to Caesar");
    let plain = MockEngine::new().generate(&req("  ", "hi")).unwrap();
    assert_eq!(plain, "(mock) hi");
}

#[test]
fn mock_engine_rejects_empty_prompt() {
    let err = MockEngine::new().generate(&req("ctx", "   ")).unwrap_err();
    assert!(matches!(&err, EngineError::Generate(m) if m == "empty user prompt"));
    assert_eq!(err.message(), "generation failed: empty user prompt");
    assert_eq!(EngineError::Load("x".into()).message(), "model load failed: x");
    assert_eq!(EngineError::NotImplemented("y".into()).message(), "not yet implemented: y");
}

#[test]
fn fnv1a_known_values() {
    assert_eq!(fnv1a(""), 0xcbf29ce484222325);
    assert_eq!(fnv1a("a"), 0xaf63dc4c8601ec8c);
    assert_eq!(fnv1a("foobar"), 0x85944171f73967e8);
}

#[test]
fn mock_embedder_is_deterministic_and_counts_words() {
    let _ = MockEmbedder::new();
    let a = MockEmbedder::token_counts("Love your enemies, love!");
    let b = MockEmbedder::token_counts("Love your enemies, love!");
    assert_eq!(a, b);
    assert_eq!(a.len(), MOCK_EMBEDDING_DIM);
    assert_eq!(a.iter().sum::<u64>(), 4);
    let love = (fnv1a("love") % MOCK_EMBEDDING_DIM as u64) as usize;
    assert_eq!(a[love], 2, "casing folds to one token");
}

#[test]
fn shared_vocabulary_is_more_similar() {
    let cos = |x: &[u64], y: &[u64]| -> f64 {
        let dot: f64 = x.iter().zip(y).map(|(a, b)| (*a as f64) * (*b as f64)).sum();
        let nx: f64 = x.iter().map(|a| (*a as f64).powi(2)).sum::<f64>().sqrt();
        let ny: f64 = y.iter().map(|a| (*a as f64).powi(2)).sum::<f64>().sqrt();
        dot / (nx * ny)
    };
    let a = MockEmbedder::token_counts("render unto caesar the coin");
    let b = MockEmbedder::token_counts("caesar coin tribute");
    let c = MockEmbedder::token_counts("lilies of the field");
    assert!(cos(&a, &b) > cos(&a, &c));
}

#[test]
fn empty_stream_is_just_done() {
    let s = empty_stream();
    assert_eq!(s.len(), 1);
    assert!(matches!(s[0], GenChunk::Done));
}
