use jesus_twin::stopwords::{is_stop_word, strip};

#[test]
fn keeps_content_words() {
    assert_eq!(strip("render to Caesar"), "render Caesar");
}

#[test]
fn all_stopwords_yields_empty() {
    assert_eq!(strip("what is it about"), "");
    assert_eq!(strip("what about"), "");
}

#[test]
fn keeps_the_real_content_word() {
    assert_eq!(strip("what about cryptocurrency"), "cryptocurrency");
}

#[test]
fn empty_query_is_empty() {
    assert_eq!(strip(""), "");
    assert_eq!(strip("   ,. "), "");
}

#[test]
fn stop_words_match_case_insensitively_and_keep_original_casing() {
    assert_eq!(strip("What ABOUT Forgiveness?"), "Forgiveness");
    assert!(is_stop_word("the"));
    assert!(!is_stop_word("The"));
    assert!(!is_stop_word("caesar"));
}

#[test]
fn punctuation_splits_tokens() {
    assert_eq!(strip("love,mercy;justice"), "love mercy justice");
}

#[test]
fn stripping_twice_changes_nothing() {
    for q in ["what about cryptocurrency", "Love your enemies, and pray!", "the of and", "", "  money--worry  "] {
        let once = strip(q);
        assert_eq!(strip(&once), once);
    }
    assert_eq!(strip("Love your enemies, and pray!"), "Love enemies pray");
}
