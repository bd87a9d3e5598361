use mentor::topic::Topic;
use mentor::trigram::{trigram_similarity, trigrams};

fn similarity(search: &str, candidate: &str) -> f32 {
    let ratio = trigram_similarity(search, candidate);
    ratio.shared as f32 / ratio.total as f32
}

#[test]
fn no_matches() {
    assert_eq!(similarity("rust", "javascript"), 0.0)
}

#[test]
fn one_match() {
    assert_eq!(similarity("java", "javascript"), 0.25)
}

#[test]
fn full_match() {
    assert_eq!(similarity("javascript", "javascript"), 1.0)
}

#[test]
fn one_word_match() {
    assert_eq!(similarity("javascript closure", "rust closure"), 0.36842105)
}

#[test]
fn trigram_counts_are_exact() {
    let ratio = trigram_similarity("javascript closure", "rust closure");
    assert_eq!((ratio.shared, ratio.total), (7, 19));
}

#[test]
fn trigrams_are_lowercased_and_distinct() {
    let t = trigrams("AAAA");
    assert_eq!(t, vec![('a', 'a', 'a')]);
    assert!(trigrams("ab").is_empty());
}

#[test]
fn similarity_is_symmetric() {
    let a = trigram_similarity("closures in rust", "rust closure");
    let b = trigram_similarity("rust closure", "closures in rust");
    assert_eq!((a.shared, a.total), (b.shared, b.total));
}

#[test]
fn similar_names_need_a_fifth_of_trigrams() {
    let topic = Topic::new("Rust Closure", 0);
    assert!(topic.is_similar("rust closure"));
    assert!(topic.is_similar("closure"));
    assert!(!topic.is_similar("javascript"));
    let short = Topic::new("go", 0);
    assert!(!short.is_similar("go"));
}

#[test]
fn text_matches_itself() {
    let r = trigram_similarity("Rust closure", "rust closure");
    assert_eq!(r.shared, r.total);
    assert_eq!(r.total, 10);
    let empty = trigram_similarity("go", "go");
    assert_eq!((empty.shared, empty.total), (0, 0));
}

#[test]
fn ratio_lies_between_zero_and_one() {
    for (a, b) in [("java", "javascript"), ("rust", "javascript"), ("Rust", "rust"), ("abcd", "bcde")] {
        let r = trigram_similarity(a, b);
        assert!(r.shared <= r.total);
    }
    let same = trigram_similarity("Rust", "rust");
    assert_eq!(same.shared, same.total);
    let disjoint = trigram_similarity("rust", "javascript");
    assert_eq!(disjoint.shared, 0);
}
