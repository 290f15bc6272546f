#[test]
fn test_placeholder() {
    // Placeholder test
}
