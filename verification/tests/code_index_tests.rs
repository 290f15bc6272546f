use masday_mcp::code_index::{chunks_stale, needs_reindex};
use masday_mcp::code_index::{
    chunk_file, ext_to_language, extract_name, is_skipped_dir, is_structure_boundary, should_index,
    CodeChunk,
};
use masday_mcp::fingerprint::content_hash;
use std::collections::hash_map::DefaultHasher;
use std::hash::{Hash, Hasher};

#[test]
fn test_content_hash_determinism() {
    let h1 = content_hash("hello world");
    let h2 = content_hash("hello world");
    assert_eq!(h1, h2, "Same content must produce same hash");
}

#[test]
fn test_content_hash_different() {
    let h1 = content_hash("hello");
    let h2 = content_hash("world");
    assert_ne!(h1, h2, "Different content must produce different hash");
}

#[test]
fn content_hash_is_sixteen_lowercase_hex_digits() {
    let h = content_hash("hello world");
    assert_eq!(h.len(), 16);
    assert!(h.chars().all(|c| c.is_ascii_digit() || ('a'..='f').contains(&c)));
}

#[test]
fn content_hash_matches_std_hasher() {
    let mut hasher = DefaultHasher::new();
    "some file content".hash(&mut hasher);
    let expected = format!("{:016x}", hasher.finish());
    assert_eq!(content_hash("some file content"), expected);
}

#[test]
fn test_is_structure_boundary() {
    assert!(is_structure_boundary("fn foo() {"));
    assert!(is_structure_boundary("pub fn create_workflow() -> Result<()> {"));
    assert!(is_structure_boundary("async fn handle_request() {"));
    assert!(is_structure_boundary("struct Workflow {"));
    assert!(is_structure_boundary("pub struct AppState {"));
    assert!(is_structure_boundary("impl WorkflowService {"));
    assert!(is_structure_boundary("enum Status {"));
    assert!(is_structure_boundary("trait Handler {"));
    assert!(is_structure_boundary("mod tests {"));
    assert!(is_structure_boundary("def create_item():"));
    assert!(is_structure_boundary("class MyClass:"));
    assert!(is_structure_boundary("function handleClick() {"));

    assert!(!is_structure_boundary("let x = 5;"));
    assert!(!is_structure_boundary("// comment"));
    assert!(!is_structure_boundary("    inner_call();"));
}

#[test]
fn test_extract_name() {
    assert_eq!(extract_name("fn create_workflow() {"), Some("create_workflow".to_string()));
    assert_eq!(
        extract_name("pub fn handle_request() -> Result<()> {"),
        Some("handle_request".to_string())
    );
    assert_eq!(extract_name("struct AppState {"), Some("AppState".to_string()));
    assert_eq!(extract_name("pub struct WorkflowService {"), Some("WorkflowService".to_string()));
    assert_eq!(extract_name("impl Handler for Server {"), Some("Handler".to_string()));
    assert_eq!(extract_name("enum Status {"), Some("Status".to_string()));
    assert_eq!(extract_name("def create_item():"), Some("create_item".to_string()));
    assert_eq!(extract_name("class MyClass:"), Some("MyClass".to_string()));
}

#[test]
fn extract_name_of_a_plain_statement_is_none() {
    assert_eq!(extract_name("let x = 5;"), None);
}

#[test]
fn test_chunk_file_rust() {
    let content = r#"use std::io;

/// A simple handler
fn init() {
    println!("init");
}

pub fn create_workflow(name: &str) -> Result<()> {
    let id = Uuid::new_v4();
    Ok(())
}

struct AppState {
    pool: PgPool,
}

impl AppState {
    fn new() -> Self {
        Self { pool: Pool::new() }
    }
}
"#;
    let chunks = chunk_file(content, "src/main.rs", "rust");
    assert!(!chunks.is_empty(), "Should produce at least one chunk");

    assert!(chunks.len() >= 4, "Expected at least 4 chunks, got {}", chunks.len());

    let fn_chunks: Vec<&CodeChunk> = chunks.iter().filter(|c| c.chunk_type == "function").collect();
    assert!(fn_chunks.len() >= 2, "Expected at least 2 function chunks, got {}", fn_chunks.len());

    let names: Vec<Option<&str>> = chunks.iter().map(|c| c.name.as_deref()).collect();
    assert!(names.contains(&Some("init")), "Should find 'init' function, got {:?}", names);
    assert!(
        names.contains(&Some("create_workflow")),
        "Should find 'create_workflow' function, got {:?}",
        names
    );
}

#[test]
fn test_chunk_file_python() {
    let content = r#"import os

def hello():
    print("hello")

class MyClass:
    def __init__(self):
        self.x = 1

    def process(self):
        return self.x
"#;
    let chunks = chunk_file(content, "src/main.py", "python");
    assert!(!chunks.is_empty());
    assert!(chunks.len() >= 3, "Expected at least 3 chunks for Python file");
}

#[test]
fn test_chunk_file_empty() {
    let chunks = chunk_file("", "empty.rs", "rust");
    assert!(chunks.is_empty(), "Empty file should produce no chunks");
}

#[test]
fn test_chunk_file_single_line() {
    let chunks = chunk_file("fn main() {}", "single.rs", "rust");
    assert!(!chunks.is_empty(), "Single function should produce a chunk");
}

#[test]
fn chunks_cover_the_file_in_order() {
    let content = "use a;\n\nfn one() {\n    1\n}\n\nfn two() {\n    2\n}\n";
    let chunks = chunk_file(content, "f.rs", "rust");
    let mut next_line = 1usize;
    for c in &chunks {
        assert!(c.start_line >= next_line);
        assert!(c.end_line >= c.start_line);
        assert_eq!(c.file_path, "f.rs");
        assert_eq!(c.language, "rust");
        next_line = c.end_line + 1;
    }
    assert!(chunks.iter().any(|c| c.name.as_deref() == Some("two")));
}

#[test]
fn test_ext_to_language() {
    assert_eq!(ext_to_language("rs"), "rust");
    assert_eq!(ext_to_language("ts"), "typescript");
    assert_eq!(ext_to_language("tsx"), "typescript");
    assert_eq!(ext_to_language("js"), "javascript");
    assert_eq!(ext_to_language("py"), "python");
    assert_eq!(ext_to_language("go"), "go");
}

#[test]
fn test_should_index() {
    assert!(should_index("rs"));
    assert!(should_index("ts"));
    assert!(should_index("py"));
    assert!(should_index("go"));
    assert!(!should_index("exe"));
    assert!(!should_index("bin"));
    assert!(!should_index("png"));
}

#[test]
fn build_and_vendor_directories_are_skipped() {
    assert!(is_skipped_dir("node_modules"));
    assert!(is_skipped_dir("target"));
    assert!(!is_skipped_dir("src"));
}

#[test]
fn reindex_and_staleness_follow_content_hashes() {
    assert!(needs_reindex(None, "abc"));
    assert!(needs_reindex(Some("abd"), "abc"));
    assert!(!needs_reindex(Some("abc"), "abc"));
    assert!(chunks_stale("abc", None));
    assert!(chunks_stale("abc", Some("abd")));
    assert!(!chunks_stale("abc", Some("abc")));
}

#[test]
fn grep_args_end_with_query_and_path() {
    let args = masday_mcp::code_index::grep_args("needle", "/proj");
    assert_eq!(args.len(), 18);
    assert_eq!(args[0], "-rn");
    assert_eq!(args[1], "--include=*.rs");
    assert_eq!(args[15], "--exclude-dir=out");
    assert_eq!(&args[16..], &["needle".to_string(), "/proj".to_string()]);
}

#[test]
fn chunks_hold_their_lines_and_merge_short_ones() {
    let mut content = String::from("use std::io;\n\nfn a() {\n    1\n}\nfn b() {}\nstruct S {\n    x: u8,\n}\n");
    for i in 0..150 {
        content.push_str(&format!("// line {}\n", i));
    }
    let lines: Vec<&str> = content.lines().collect();
    let chunks = chunk_file(&content, "f.rs", "rust");
    assert!(!chunks.is_empty());
    assert_eq!(chunks[0].chunk_type, "file_header");
    assert!(chunks[0].name.is_none());
    let kinds = ["file_header", "function", "struct", "impl", "enum", "trait", "block"];
    for (k, c) in chunks.iter().enumerate() {
        assert_eq!(c.file_path, "f.rs");
        assert_eq!(c.language, "rust");
        assert!(kinds.contains(&c.chunk_type.as_str()));
        assert_eq!(c.content, lines[c.start_line - 1..c.end_line].join("\n"));
        if k > 0 {
            assert!(c.content.lines().count() >= 2);
        }
    }
}
