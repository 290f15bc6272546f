//! Scaffolding: the checks on a scaffold name, and the text of the files a
//! scaffold writes (agent and skill markdown, and a minimal MCP server).
use vstd::prelude::*;
use crate::client::is_ascii_alnum;
use crate::client::ascii_alnum;
use crate::text::{chars_of, concat3, concat4, concat5, concat_str, ends_with, ends_with_str, push_char, starts_with, starts_with_str};

verus! {

/// A character allowed in a scaffold name: ASCII letters, digits, `-`, `_`.
pub open spec fn scaffold_char(c: char) -> bool {
    is_ascii_alnum(c) || c == '-' || c == '_'
}

/// The characters of a scaffold name are exactly the ASCII letters of either
/// case, the ASCII digits, `-` and `_`.
pub proof fn lemma_scaffold_chars(c: char)
    ensures
        scaffold_char(c) <==> ('a' <= c && c <= 'z') || ('A' <= c && c <= 'Z') || ('0' <= c && c <= '9')
            || c == '-' || c == '_',
{
}

/// Every non-empty name of at most 100 bytes made only of ASCII letters
/// (either case), digits, `-` and `_` is accepted unchanged.
pub proof fn lemma_scaffold_name_accepted(name: &str)
    requires
        name@.len() > 0,
        name.len() <= 100,
        forall|i: int|
            0 <= i < name@.len() ==> ('a' <= #[trigger] name@[i] && name@[i] <= 'z') || ('A' <= name@[i]
                && name@[i] <= 'Z') || ('0' <= name@[i] && name@[i] <= '9') || name@[i] == '-' || name@[i]
                == '_',
    ensures
        scaffold_name_error(name) is None,
{
    assert forall|i: int| 0 <= i < name@.len() implies scaffold_char(#[trigger] name@[i]) by {
        lemma_scaffold_chars(name@[i]);
    }
}

/// Why a scaffold name is refused, if it is: empty, longer than 100 bytes, or
/// holding a character other than those of [`scaffold_char`]. The checks are
/// made in that order.
pub open spec fn scaffold_name_error(name: &str) -> Option<Seq<char>> {
    if name@.len() == 0 {
        Some("name must not be empty"@)
    } else if name.len() > 100 {
        Some("name must be 100 characters or less"@)
    } else if !(forall|i: int| 0 <= i < name@.len() ==> scaffold_char(#[trigger] name@[i])) {
        Some("name must contain only ASCII alphanumeric characters, hyphens, and underscores"@)
    } else {
        None
    }
}

/// Validates a name that will become a path component: it is returned
/// unchanged when [`scaffold_name_error`] finds nothing, so `/`, `\`, `..`,
/// whitespace and the empty name never reach a path.
pub fn validate_scaffold_name(name: &str) -> (r: Result<&str, String>)
    ensures
        match r {
            Ok(n) => n == name && scaffold_name_error(name) is None,
            Err(e) => scaffold_name_error(name) == Some(e@),
        },
{
    if name.is_empty() {
        return Err("name must not be empty".to_string());
    }
    if name.len() > 100 {
        return Err("name must be 100 characters or less".to_string());
    }
    let mut ok = true;
    for c in it: name.chars()
        invariant
            it.seq() == name@,
            ok == (forall|j: int| 0 <= j < it.index() ==> scaffold_char(#[trigger] name@[j])),
    {
        if !(ascii_alnum(c) || c == '-' || c == '_') {
            ok = false;
        }
    }
    if ok {
        Ok(name)
    } else {
        Err(
            "name must contain only ASCII alphanumeric characters, hyphens, and underscores".to_string(),
        )
    }
}

/// An accepted scaffold name cannot leave its directory: it is not empty
/// and holds no `/`, `\`, `.` or whitespace.
pub proof fn lemma_scaffold_name_is_path_safe(name: &str)
    requires
        scaffold_name_error(name) is None,
    ensures
        name@.len() > 0,
        forall|i: int|
            0 <= i < name@.len() ==> #[trigger] name@[i] != '/' && name@[i] != '\\' && name@[i]
                != '.' && !crate::text::is_ws(name@[i]),
{
    assert forall|i: int| 0 <= i < name@.len() implies #[trigger] name@[i] != '/' && name@[i]
        != '\\' && name@[i] != '.' && !crate::text::is_ws(name@[i]) by {
        assert(scaffold_char(name@[i]));
    }
}

/// `s` escaped for a JSON string: each `\` doubled, each `"` preceded by `\`.
pub open spec fn json_escape(s: Seq<char>) -> Seq<char>
    decreases s.len(),
{
    if s.len() == 0 {
        Seq::empty()
    } else {
        json_escape(s.drop_last()) + if s.last() == '\\' {
            seq!['\\', '\\']
        } else if s.last() == '"' {
            seq!['\\', '"']
        } else {
            seq![s.last()]
        }
    }
}

/// Escaping works character by character: `\` becomes `\\`, `"` becomes
/// `\"`, any other character stays, and the escape of a joined text is the
/// join of the escapes; so a text without `\` or `"` is left as it is.
pub proof fn lemma_json_escape_laws(a: Seq<char>, b: Seq<char>)
    ensures
        json_escape(seq!['\\']) == seq!['\\', '\\'],
        json_escape(seq!['"']) == seq!['\\', '"'],
        json_escape(a + b) == json_escape(a) + json_escape(b),
        (forall|i: int| 0 <= i < a.len() ==> #[trigger] a[i] != '\\' && a[i] != '"') ==> json_escape(a)
            == a,
    decreases b.len(),
{
    let x = seq!['\\'];
    let q = seq!['"'];
    assert(x.drop_last() =~= Seq::<char>::empty());
    assert(q.drop_last() =~= Seq::<char>::empty());
    assert(x.last() == '\\' && q.last() == '"');
    assert(json_escape(x.drop_last()) =~= Seq::<char>::empty());
    assert(json_escape(q.drop_last()) =~= Seq::<char>::empty());
    assert(json_escape(x) == json_escape(x.drop_last()) + seq!['\\', '\\']);
    assert(json_escape(q) == json_escape(q.drop_last()) + seq!['\\', '"']);
    assert(json_escape(x) =~= seq!['\\', '\\']);
    assert(json_escape(q) =~= seq!['\\', '"']);
    if b.len() == 0 {
        assert(a + b =~= a);
        assert(json_escape(a) + json_escape(b) =~= json_escape(a));
    } else {
        lemma_json_escape_laws(a, b.drop_last());
        assert((a + b).drop_last() =~= a + b.drop_last());
        assert((a + b).last() == b.last());
    }
    lemma_json_escape_plain(a);
}

proof fn lemma_json_escape_plain(a: Seq<char>)
    ensures
        (forall|i: int| 0 <= i < a.len() ==> #[trigger] a[i] != '\\' && a[i] != '"') ==> json_escape(a)
            == a,
    decreases a.len(),
{
    if a.len() > 0 && (forall|i: int| 0 <= i < a.len() ==> #[trigger] a[i] != '\\' && a[i] != '"') {
        let d = a.drop_last();
        assert forall|i: int| 0 <= i < d.len() implies #[trigger] d[i] != '\\' && d[i] != '"' by {
            assert(d[i] == a[i]);
        }
        lemma_json_escape_plain(d);
        assert(a.last() == a[a.len() - 1]);
        assert(d.push(a.last()) =~= a);
        assert(d + seq![a.last()] =~= a);
    }
}

/// Escapes `s` for a JSON string literal, as [`json_escape`] states.
pub fn escape_json_text(s: &str) -> (r: String)
    ensures
        r@ == json_escape(s@),
{
    let mut out = String::new();
    for c in it: s.chars()
        invariant
            it.seq() == s@,
            out@ == json_escape(s@.take(it.index() as int)),
    {
        proof {
            assert(s@.take(it.index() + 1).drop_last() =~= s@.take(it.index() as int));
        }
        if c == '\\' {
            push_char(&mut out, '\\');
            push_char(&mut out, '\\');
        } else if c == '"' {
            push_char(&mut out, '\\');
            push_char(&mut out, '"');
        } else {
            push_char(&mut out, c);
        }
    }
    proof {
        assert(s@.take(s@.len() as int) =~= s@);
    }
    out
}

/// The agent file of a scaffolded feature: front matter with the name and
/// the `general` role, then the description as title and body.
pub fn agent_markdown(name: &str, role: &str, title: &str, body: &str) -> (r: String)
    ensures
        r@ == "---\nname: "@ + name@ + "\nrole: "@ + role@ + "\n---\n\n# "@ + title@ + "\n\n"@
            + body@,
{
    let head = concat5("---\nname: ", name, "\nrole: ", role, "\n---\n\n# ");
    concat4(head.as_str(), title, "\n\n", body)
}

/// A skill's `SKILL.md`: front matter with name and description, then the
/// name as title.
pub fn skill_markdown(name: &str, description: &str) -> (r: String)
    ensures
        r@ == "---\nname: "@ + name@ + "\ndescription: "@ + description@ + "\n---\n\n# "@ + name@,
{
    let head = concat5("---\nname: ", name, "\ndescription: ", description, "\n---\n\n# ");
    concat_str(head.as_str(), name)
}

/// The path of an agent's file: `<name>.md` in the agents directory.
pub fn agent_file_path(agents_dir: &str, name: &str) -> (r: String)
    ensures
        r@ == agents_dir@ + "/"@ + name@ + ".md"@,
{
    concat4(agents_dir, "/", name, ".md")
}

/// The directory of a skill: `<name>` in the skills directory.
pub fn skill_dir_path(skills_dir: &str, name: &str) -> (r: String)
    ensures
        r@ == skills_dir@ + "/"@ + name@,
{
    concat3(skills_dir, "/", name)
}

/// The path of a skill's `SKILL.md`, in the skill's directory.
pub fn skill_file_path(skills_dir: &str, name: &str) -> (r: String)
    ensures
        r@ == skills_dir@ + "/"@ + name@ + "/SKILL.md"@,
{
    concat4(skills_dir, "/", name, "/SKILL.md")
}

/// The `package.json` of a scaffolded MCP server, the description escaped
/// for JSON.
pub open spec fn package_json_text(name: Seq<char>, description: Seq<char>) -> Seq<char> {
    "{\n  \"name\": \""@ + name + "\",\n  \"version\": \"0.1.0\",\n  \"description\": \""@
        + json_escape(description) + PACKAGE_JSON_MIDDLE@ + name + PACKAGE_JSON_TAIL@
}

/// The part of `package.json` between the description and the `bin` name.
pub const PACKAGE_JSON_MIDDLE: &'static str = "\",\n  \"type\": \"module\",\n  \"main\": \"dist/index.js\",\n  \"bin\": {\n    \"";

/// The part of `package.json` after the `bin` name.
pub const PACKAGE_JSON_TAIL: &'static str = "\": \"dist/index.js\"\n  },\n  \"scripts\": {\n    \"build\": \"tsc\",\n    \"start\": \"node dist/index.js\",\n    \"dev\": \"tsc --watch\"\n  },\n  \"engines\": {\n    \"node\": \">=18\"\n  },\n  \"dependencies\": {\n    \"@modelcontextprotocol/sdk\": \"^1.0.0\",\n    \"zod\": \"^3.23.0\"\n  },\n  \"devDependencies\": {\n    \"typescript\": \"^5.4.0\",\n    \"@types/node\": \"^20.11.0\"\n  }\n}\n";

/// Builds the `package.json` of a scaffolded MCP server.
pub fn scaffold_mcp_package_json(name: &str, description: &str) -> (r: String)
    ensures
        r@ == package_json_text(name@, description@),
{
    let escaped = escape_json_text(description);
    let head = concat5(
        "{\n  \"name\": \"",
        name,
        "\",\n  \"version\": \"0.1.0\",\n  \"description\": \"",
        escaped.as_str(),
        PACKAGE_JSON_MIDDLE,
    );
    concat3(head.as_str(), name, PACKAGE_JSON_TAIL)
}

/// The description line of the README: the description, or a default that
/// names the server when the description is empty.
pub open spec fn readme_description(name: Seq<char>, description: Seq<char>) -> Seq<char> {
    if description.len() == 0 {
        "An MCP server named `"@ + name + "`."@
    } else {
        description
    }
}

/// Builds the `README.md` of a scaffolded MCP server: the name as title, the
/// description line, then the getting-started text `body`.
pub fn scaffold_mcp_readme(name: &str, description: &str, body: &str) -> (r: String)
    ensures
        r@ == "# "@ + name@ + "\n\n"@ + readme_description(name@, description@) + body@,
{
    let desc = if description.is_empty() {
        concat3("An MCP server named `", name, "`.")
    } else {
        description.to_string()
    };
    concat4("# ", name, "\n\n", desc.as_str()).concat(body)
}

/// The `index.ts` of a scaffolded MCP server: a stdio server with one
/// example tool.
pub const SCAFFOLD_MCP_INDEX_TS: &'static str = "#!/usr/bin/env node\n// Minimal MCP server (stdio transport) scaffolded by masday.\n// Uses the high-level McpServer API from @modelcontextprotocol/sdk.\n// After `npm install && npm run build`, run with: `npm start`.\n\nimport { McpServer } from \"@modelcontextprotocol/sdk/server/mcp.js\";\nimport { StdioServerTransport } from \"@modelcontextprotocol/sdk/server/stdio.js\";\nimport { z } from \"zod\";\n\nconst server = new McpServer({\n  name: \"my-mcp-server\",\n  version: \"0.1.0\",\n});\n\n// Example tool — extend or replace with your own.\nserver.tool(\n  \"hello\",\n  \"Greet a name. Returns a friendly greeting.\",\n  { name: z.string().describe(\"Name to greet\") },\n  async ({ name }) => ({\n    content: [{ type: \"text\" as const, text: `Hello, ${name}!` }],\n  }),\n);\n\n// Connect over stdio and run until the client disconnects.\nconst transport = new StdioServerTransport();\nawait server.connect(transport);\n";

/// The `tsconfig.json` of a scaffolded MCP server: strict TypeScript, ESM.
pub const SCAFFOLD_MCP_TSCONFIG_JSON: &'static str = "{\n  \"compilerOptions\": {\n    \"target\": \"ES2022\",\n    \"module\": \"NodeNext\",\n    \"moduleResolution\": \"NodeNext\",\n    \"lib\": [\"ES2022\"],\n    \"outDir\": \"./dist\",\n    \"rootDir\": \"./\",\n    \"strict\": true,\n    \"esModuleInterop\": true,\n    \"skipLibCheck\": true,\n    \"forceConsistentCasingInFileNames\": true,\n    \"resolveJsonModule\": true,\n    \"declaration\": true,\n    \"sourceMap\": true\n  },\n  \"include\": [\"index.ts\"]\n}\n";

/// A file to write: its name and contents.
#[derive(Debug)]
pub struct ScaffoldFile {
    pub file_name: String,
    pub contents: String,
}

/// The four files of a scaffolded MCP server, in the order they are written:
/// `package.json`, `index.ts`, `tsconfig.json`, `README.md` (whose
/// getting-started text is `readme_body`).
pub fn scaffold_mcp_files(name: &str, description: &str, readme_body: &str) -> (r: Vec<ScaffoldFile>)
    ensures
        r@.len() == 4,
        r@[0].file_name@ == "package.json"@,
        r@[0].contents@ == package_json_text(name@, description@),
        r@[1].file_name@ == "index.ts"@,
        r@[1].contents@ == SCAFFOLD_MCP_INDEX_TS@,
        r@[2].file_name@ == "tsconfig.json"@,
        r@[2].contents@ == SCAFFOLD_MCP_TSCONFIG_JSON@,
        r@[3].file_name@ == "README.md"@,
        r@[3].contents@ == "# "@ + name@ + "\n\n"@ + readme_description(name@, description@)
            + readme_body@,
{
    let mut files: Vec<ScaffoldFile> = Vec::new();
    files.push(
        ScaffoldFile {
            file_name: "package.json".to_string(),
            contents: scaffold_mcp_package_json(name, description),
        },
    );
    files.push(
        ScaffoldFile {
            file_name: "index.ts".to_string(),
            contents: SCAFFOLD_MCP_INDEX_TS.to_string(),
        },
    );
    files.push(
        ScaffoldFile {
            file_name: "tsconfig.json".to_string(),
            contents: SCAFFOLD_MCP_TSCONFIG_JSON.to_string(),
        },
    );
    files.push(
        ScaffoldFile {
            file_name: "README.md".to_string(),
            contents: scaffold_mcp_readme(name, description, readme_body),
        },
    );
    files
}

/// The paths a scaffolded MCP server reports as created: each file under
/// the server's directory, `<name>/<file>`.
pub fn created_file_paths(name: &str, files: &Vec<ScaffoldFile>) -> (r: Vec<String>)
    ensures
        r@.len() == files@.len(),
        forall|i: int|
            0 <= i < r@.len() ==> #[trigger] r@[i]@ == name@ + "/"@ + files@[i].file_name@,
{
    let mut out: Vec<String> = Vec::new();
    let mut i: usize = 0;
    while i < files.len()
        invariant
            i <= files@.len(),
            out@.len() == i,
            forall|j: int|
                0 <= j < i ==> #[trigger] out@[j]@ == name@ + "/"@ + files@[j].file_name@,
        decreases files@.len() - i,
    {
        out.push(concat3(name, "/", files[i].file_name.as_str()));
        i = i + 1;
    }
    out
}

/// The next steps a scaffolded MCP server suggests: enter its directory,
/// then install, build and start it.
pub fn mcp_next_steps(name: &str) -> (r: Vec<String>)
    ensures
        r@.len() == 4,
        r@[0]@ == "cd "@ + name@,
        r@[1]@ == "npm install"@,
        r@[2]@ == "npm run build"@,
        r@[3]@ == "npm start"@,
{
    let mut out: Vec<String> = Vec::new();
    out.push(concat_str("cd ", name));
    out.push("npm install".to_string());
    out.push("npm run build".to_string());
    out.push("npm start".to_string());
    out
}

/// Whether a file in an agents, skills or hooks directory is one of the
/// templates this project installs: `masday-*.md`.
pub fn is_template_file(name: &str) -> (r: bool)
    ensures
        r == (starts_with(name@, "masday-"@) && ends_with(name@, ".md"@)),
{
    let cs = chars_of(name);
    starts_with_str(cs.as_slice(), "masday-") && ends_with_str(cs.as_slice(), ".md")
}

} // verus!
