use jesus_twin::retrieve::{arrange, legs_matched, live_legs, RetrievalSet};

fn leg(ids: &[&str]) -> Vec<String> {
    ids.iter().map(|s| s.to_string()).collect()
}

#[test]
fn top_passage_leg_agreement() {
    let legs = vec![leg(&["b", "a"]), leg(&["c"]), leg(&["b", "c"]), leg(&[])];
    assert_eq!(legs_matched(&legs, "b"), 2);
    assert_eq!(legs_matched(&legs, "c"), 2);
    assert_eq!(legs_matched(&legs, "z"), 0);
}

#[test]
fn dead_legs_lower_the_live_count() {
    assert_eq!(live_legs(&[leg(&["a"]), leg(&[])]), 1);
    assert_eq!(live_legs(&[]), 0);
}

#[test]
fn empty_retrieval() {
    let s = RetrievalSet::empty();
    assert!(s.passages.is_empty());
    assert_eq!(s.top_legs_matched, 0);
}

#[test]
fn top_score_is_the_first_passages_or_zero() {
    assert_eq!(f32::from_bits(RetrievalSet::empty().top_score()), 0.0);
}

#[test]
fn rows_follow_the_fused_order() {
    let wanted = leg(&["c", "a", "zz", "b", "a"]);
    let keys = leg(&["a", "b", "c", "b"]);
    // "c" is row 2, "a" row 0, "zz" has no row, "b" is its last row 3, the second "a" is
    // already handed out.
    assert_eq!(arrange(&wanted, &keys), vec![(0, 2), (1, 0), (3, 3)]);
    assert!(arrange(&leg(&[]), &keys).is_empty());
    assert!(arrange(&wanted, &leg(&[])).is_empty());
}
