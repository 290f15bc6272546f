use masday_mcp::fingerprint::{compute_fingerprint, hex16_string};
use std::collections::hash_map::DefaultHasher;
use std::hash::{Hash, Hasher};

#[test]
fn fingerprint_is_deterministic_and_sensitive() {
    let a = compute_fingerprint("w", "p", "t", &[Some("m1"), None], &[(Some("t1"), Some("DONE"))]);
    let b = compute_fingerprint("w", "p", "t", &[Some("m1"), None], &[(Some("t1"), Some("DONE"))]);
    assert_eq!(a, b);
    let c = compute_fingerprint("w", "p", "t", &[Some("m1")], &[(Some("t1"), Some("RUNNING"))]);
    assert_ne!(a, c);
    assert_eq!(a.len(), 16);
}

#[test]
fn fingerprint_matches_hashing_the_strings_in_order() {
    let mut h = DefaultHasher::new();
    for s in ["test-workflow", "test-plan", "test-task", "m1", "t1", "DONE", "t2"] {
        s.hash(&mut h);
    }
    let expected = format!("{:016x}", h.finish());
    let got = compute_fingerprint(
        "test-workflow",
        "test-plan",
        "test-task",
        &[Some("m1"), None],
        &[(Some("t1"), Some("DONE")), (Some("t2"), None)],
    );
    assert_eq!(got, expected);
}

#[test]
fn hex_rendering_is_zero_padded() {
    assert_eq!(hex16_string(0), "0000000000000000");
    assert_eq!(hex16_string(0xabc), "0000000000000abc");
    assert_eq!(hex16_string(u64::MAX), "ffffffffffffffff");
}

#[test]
fn test_search_context_fingerprint_stdio_mode() {
    let fp = masday_mcp::fingerprint::compute_fingerprint("test-workflow", "test-plan", "test-task", &[], &[]);
    assert_eq!(fp.len(), 16);
    assert!(fp.chars().all(|c| c.is_ascii_hexdigit()));
}
