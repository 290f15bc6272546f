use masday_mcp::capability::{registry_file, registry_file_text, upsert_entry, Named, RegistryFile};
use serde_json::Value;

fn entry(json: &str) -> Named<Value> {
    let v: Value = serde_json::from_str(json).unwrap();
    let name = v["name"].as_str().map(|s| s.to_string());
    Named { name, item: v }
}

#[test]
fn test_upsert_entry_adds_new() {
    let entries = vec![
        entry(r#"{"name": "agent1", "file": "agent1.md"}"#),
        entry(r#"{"name": "agent2", "file": "agent2.md"}"#),
    ];
    let new_entry = entry(r#"{"name": "agent3", "file": "agent3.md"}"#);
    let result = upsert_entry(entries, "agent3", new_entry);

    assert_eq!(result.len(), 3);
    assert_eq!(result[0].item["name"], "agent1");
    assert_eq!(result[1].item["name"], "agent2");
    assert_eq!(result[2].item["name"], "agent3");
}

#[test]
fn test_upsert_entry_replaces_existing() {
    let entries = vec![
        entry(r#"{"name": "agent1", "file": "agent1.md", "model": "old"}"#),
        entry(r#"{"name": "agent2", "file": "agent2.md"}"#),
    ];
    let new_entry = entry(r#"{"name": "agent1", "file": "agent1.md", "model": "new"}"#);
    let result = upsert_entry(entries, "agent1", new_entry);

    assert_eq!(result.len(), 2);
    assert_eq!(result[0].item["name"], "agent1");
    assert_eq!(result[0].item["model"], "new");
    assert_eq!(result[1].item["name"], "agent2");
}

#[test]
fn test_upsert_entry_preserves_others() {
    let entries = vec![
        entry(r#"{"name": "agent1", "file": "agent1.md"}"#),
        entry(r#"{"name": "agent2", "file": "agent2.md"}"#),
        entry(r#"{"name": "agent3", "file": "agent3.md"}"#),
    ];
    let new_entry = entry(r#"{"name": "agent2", "file": "agent2-updated.md"}"#);
    let result = upsert_entry(entries, "agent2", new_entry);

    assert_eq!(result.len(), 3);
    assert_eq!(result[0].item["name"], "agent1");
    assert_eq!(result[0].item["file"], "agent1.md");
    assert_eq!(result[1].item["name"], "agent2");
    assert_eq!(result[1].item["file"], "agent2-updated.md");
    assert_eq!(result[2].item["name"], "agent3");
    assert_eq!(result[2].item["file"], "agent3.md");
}

#[test]
fn upsert_replaces_only_the_first_match_and_skips_unnamed_entries() {
    let entries = vec![
        Named { name: None, item: 0 },
        Named { name: Some("a".to_string()), item: 1 },
        Named { name: Some("a".to_string()), item: 2 },
    ];
    let result = upsert_entry(entries, "a", Named { name: Some("a".to_string()), item: 9 });
    let items: Vec<i32> = result.iter().map(|e| e.item).collect();
    assert_eq!(items, vec![0, 9, 2]);
}

#[test]
fn upserting_twice_is_upserting_once() {
    let start = || vec![Named { name: Some("x".to_string()), item: 1 }];
    let once = upsert_entry(start(), "y", Named { name: Some("y".to_string()), item: 2 });
    let twice = upsert_entry(
        upsert_entry(start(), "y", Named { name: Some("y".to_string()), item: 2 }),
        "y",
        Named { name: Some("y".to_string()), item: 2 },
    );
    let a: Vec<i32> = once.iter().map(|e| e.item).collect();
    let b: Vec<i32> = twice.iter().map(|e| e.item).collect();
    assert_eq!(a, b);
    assert_eq!(a, vec![1, 2]);
}

#[test]
fn registry_file_is_the_first_that_exists() {
    assert_eq!(registry_file(true, true), RegistryFile::Global);
    assert_eq!(registry_file(false, true), RegistryFile::MasdayHome);
    assert_eq!(registry_file(false, false), RegistryFile::Project);
}

#[test]
fn registry_text_halves_indents_like_str_replace() {
    for s in ["", "{\n  \"a\": [\n    1\n  ]\n}", "     five", "x    y        z", "   three"] {
        assert_eq!(registry_file_text(s), format!("{}\n", s.replace("    ", "  ")));
    }
}
