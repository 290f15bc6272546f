use masday_mcp::scaffold::{
    agent_file_path, agent_markdown, created_file_paths, escape_json_text, mcp_next_steps,
    scaffold_mcp_files, scaffold_mcp_package_json, scaffold_mcp_readme, skill_dir_path, skill_file_path,
    skill_markdown, validate_scaffold_name, SCAFFOLD_MCP_INDEX_TS, SCAFFOLD_MCP_TSCONFIG_JSON,
};

#[test]
fn validate_scaffold_name_rejects_traversal_and_unsafe_chars() {
    assert_eq!(validate_scaffold_name("my-feature_1").unwrap(), "my-feature_1");
    assert!(validate_scaffold_name("").is_err());
    assert!(validate_scaffold_name("../etc").is_err());
    assert!(validate_scaffold_name("a/b").is_err());
    assert!(validate_scaffold_name("a\\b").is_err());
    assert!(validate_scaffold_name("a b").is_err());
    assert!(validate_scaffold_name("..").is_err());
    assert!(validate_scaffold_name("a.b").is_err());
    assert!(validate_scaffold_name(&"a".repeat(101)).is_err());
}

#[test]
fn scaffold_name_errors_say_why() {
    assert_eq!(validate_scaffold_name("").unwrap_err(), "name must not be empty");
    assert_eq!(
        validate_scaffold_name(&"a".repeat(101)).unwrap_err(),
        "name must be 100 characters or less"
    );
    assert_eq!(
        validate_scaffold_name("a/b").unwrap_err(),
        "name must contain only ASCII alphanumeric characters, hyphens, and underscores"
    );
    assert_eq!(validate_scaffold_name(&"a".repeat(100)).unwrap(), "a".repeat(100));
    // A 2-byte letter repeated 51 times is 102 bytes: too long before the
    // character check.
    assert_eq!(
        validate_scaffold_name(&"é".repeat(51)).unwrap_err(),
        "name must be 100 characters or less"
    );
}

#[test]
fn package_json_escapes_the_description() {
    let pj = scaffold_mcp_package_json("srv", "say \"hi\" \\ bye");
    assert!(pj.starts_with("{\n  \"name\": \"srv\",\n  \"version\": \"0.1.0\",\n"));
    assert!(pj.contains("\"description\": \"say \\\"hi\\\" \\\\ bye\","));
    assert!(pj.contains("\"bin\": {\n    \"srv\": \"dist/index.js\"\n  },"));
    assert!(pj.ends_with("}\n"));
    let parsed: serde_json::Value = serde_json::from_str(&pj).unwrap();
    assert_eq!(parsed["description"], "say \"hi\" \\ bye");
    assert_eq!(parsed["name"], "srv");
    assert_eq!(escape_json_text("a\"b\\c"), "a\\\"b\\\\c");
}

#[test]
fn readme_defaults_its_description() {
    let r = scaffold_mcp_readme("srv", "", "\n\nBody.\n");
    assert_eq!(r, "# srv\n\nAn MCP server named `srv`.\n\nBody.\n");
    let r = scaffold_mcp_readme("srv", "Does things.", "\n\nBody.\n");
    assert_eq!(r, "# srv\n\nDoes things.\n\nBody.\n");
}

#[test]
fn mcp_server_files_and_manifest() {
    let files = scaffold_mcp_files("srv", "d", "\n\nBody.\n");
    let names: Vec<&str> = files.iter().map(|f| f.file_name.as_str()).collect();
    assert_eq!(names, vec!["package.json", "index.ts", "tsconfig.json", "README.md"]);
    assert_eq!(files[1].contents, SCAFFOLD_MCP_INDEX_TS);
    assert_eq!(files[2].contents, SCAFFOLD_MCP_TSCONFIG_JSON);
    assert_eq!(files[3].contents, "# srv\n\nd\n\nBody.\n");
    let created = created_file_paths("srv", &files);
    assert_eq!(created, vec!["srv/package.json", "srv/index.ts", "srv/tsconfig.json", "srv/README.md"]);
    assert_eq!(mcp_next_steps("srv"), vec!["cd srv", "npm install", "npm run build", "npm start"]);
    let tsconfig: serde_json::Value = serde_json::from_str(SCAFFOLD_MCP_TSCONFIG_JSON).unwrap();
    assert_eq!(tsconfig["compilerOptions"]["strict"], true);
}

#[test]
fn agent_and_skill_files() {
    assert_eq!(
        agent_markdown("rev", "general", "Reviews code", "Reviews code"),
        "---\nname: rev\nrole: general\n---\n\n# Reviews code\n\nReviews code"
    );
    assert_eq!(
        skill_markdown("rev", "Reviews code"),
        "---\nname: rev\ndescription: Reviews code\n---\n\n# rev"
    );
    assert_eq!(agent_file_path(".cfg/agents", "rev"), ".cfg/agents/rev.md");
    assert_eq!(skill_file_path(".cfg/skills", "rev"), ".cfg/skills/rev/SKILL.md");
    assert_eq!(skill_dir_path(".cfg/skills", "rev"), ".cfg/skills/rev");
}

#[test]
fn is_template_file_matches_masday_markdown_only() {
    assert!(masday_mcp::scaffold::is_template_file("masday-orchestrator.md"));
    assert!(masday_mcp::scaffold::is_template_file("masday-.md"));
    assert!(!masday_mcp::scaffold::is_template_file("masday-notes.txt"));
    assert!(!masday_mcp::scaffold::is_template_file("other.md"));
    assert!(!masday_mcp::scaffold::is_template_file("masday.md"));
    assert!(!masday_mcp::scaffold::is_template_file(""));
}
