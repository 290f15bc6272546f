use masday_mcp::features::{term_counts, DIM};
use std::collections::hash_map::DefaultHasher;
use std::hash::{Hash, Hasher};

fn dim(token: &str) -> usize {
    let mut h = DefaultHasher::new();
    token.to_string().hash(&mut h);
    (h.finish() % DIM as u64) as usize
}

#[test]
fn empty_text_has_no_tokens() {
    let c = term_counts("");
    assert_eq!(c.len(), DIM);
    assert!(c.iter().all(|&x| x == 0));
}

#[test]
fn unigrams_and_bigrams_are_counted() {
    // "ab cd": unigrams a, b, c, d and bigrams ab, cd.
    let c = term_counts("ab cd");
    assert_eq!(c.iter().sum::<u128>(), 6);
    let mut expected = vec![0u128; DIM];
    for t in ["a", "b", "c", "d", "ab", "cd"] {
        expected[dim(t)] += 1;
    }
    assert_eq!(c, expected);
}

#[test]
fn counts_ignore_case() {
    let a = term_counts("Hello World");
    assert_eq!(a, term_counts("HELLO WORLD"));
    assert_eq!(a, term_counts("hello world"));
}

#[test]
fn counts_are_deterministic() {
    assert_eq!(term_counts("deterministic hashing test"), term_counts("deterministic hashing test"));
}
