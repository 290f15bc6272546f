//! Splitting source files into searchable chunks.
//!
//! A file is cut at lines that open a structure (a function, type, impl, class
//! and the like, as the prefixes below recognise them); oversized pieces are
//! split near a blank line and tiny pieces are merged into the one before.
use vstd::prelude::*;
use crate::lines::{join_lines, lemma_join_concat, lemma_lines_grow, spec_lines, split_lines, split_lines_chars};
use crate::text::{
    blank_chars, chars_of, is_blank, is_ws, is_whitespace, skip_chars, starts_with,
    starts_with_str, str_eq, strip_all, strip_all_str, string_from_chars, trim_start,
    trim_start_chars,
};

verus! {

/// Line prefixes that open a new chunk (after leading whitespace).
pub open spec fn boundary_prefixes() -> Seq<Seq<char>> {
    seq![
        "pub fn "@,
        "pub async fn "@,
        "async fn "@,
        "fn "@,
        "pub struct "@,
        "struct "@,
        "pub enum "@,
        "enum "@,
        "pub trait "@,
        "trait "@,
        "impl "@,
        "pub impl "@,
        "mod "@,
        "pub mod "@,
        "class "@,
        "def "@,
        "async def "@,
        "function "@,
        "export function "@,
        "export async function "@,
        "interface "@,
        "type "@,
        "export type "@,
        "const "@,
        "export const "@,
    ]
}

/// Whether a line opens a new chunk.
pub open spec fn spec_is_boundary(line: Seq<char>) -> bool {
    exists|i: int| 0 <= i < boundary_prefixes().len() && starts_with(
        trim_start(line),
        #[trigger] boundary_prefixes()[i],
    )
}

fn boundary_prefix_list() -> (v: Vec<&'static str>)
    ensures
        v@.len() == boundary_prefixes().len(),
        forall|i: int| 0 <= i < v@.len() ==> #[trigger] v@[i]@ == boundary_prefixes()[i],
{
    let v = vec![
        "pub fn ",
        "pub async fn ",
        "async fn ",
        "fn ",
        "pub struct ",
        "struct ",
        "pub enum ",
        "enum ",
        "pub trait ",
        "trait ",
        "impl ",
        "pub impl ",
        "mod ",
        "pub mod ",
        "class ",
        "def ",
        "async def ",
        "function ",
        "export function ",
        "export async function ",
        "interface ",
        "type ",
        "export type ",
        "const ",
        "export const ",
    ];
    v
}

fn boundary_chars(line: &[char]) -> (r: bool)
    ensures
        r == spec_is_boundary(line@),
{
    let trimmed = trim_start_chars(line);
    let prefixes = boundary_prefix_list();
    let mut i: usize = 0;
    while i < prefixes.len()
        invariant
            trimmed@ == trim_start(line@),
            prefixes@.len() == boundary_prefixes().len(),
            forall|k: int| 0 <= k < prefixes@.len() ==> #[trigger] prefixes@[k]@
                == boundary_prefixes()[k],
            i <= prefixes@.len(),
            forall|k: int| 0 <= k < i ==> !starts_with(trim_start(line@), #[trigger] boundary_prefixes()[k]),
        decreases prefixes@.len() - i,
    {
        if starts_with_str(trimmed.as_slice(), prefixes[i]) {
            return true;
        }
        i = i + 1;
    }
    false
}

/// Whether `line` opens a new chunk: after its leading whitespace it starts
/// with one of [`boundary_prefixes`].
pub fn is_structure_boundary(line: &str) -> (r: bool)
    ensures
        r == spec_is_boundary(line@),
{
    let cs = chars_of(line);
    boundary_chars(cs.as_slice())
}

/// Keywords after which a structure's name follows.
pub open spec fn name_prefixes() -> Seq<Seq<char>> {
    seq![
        "fn "@,
        "struct "@,
        "enum "@,
        "trait "@,
        "impl "@,
        "mod "@,
        "class "@,
        "def "@,
        "function "@,
        "interface "@,
    ]
}

/// Characters that end a structure's name.
pub open spec fn is_name_delimiter(c: char) -> bool {
    c == '(' || c == '<' || c == '{' || c == ':' || is_ws(c)
}

/// The longest prefix of `s` free of name delimiters.
pub open spec fn name_head(s: Seq<char>) -> Seq<char>
    decreases s.len(),
{
    if s.len() == 0 || is_name_delimiter(s[0]) {
        Seq::empty()
    } else {
        seq![s[0]] + name_head(s.drop_first())
    }
}

/// A line with its leading whitespace and any leading `pub `, `async `,
/// `export `, `type ` and `const ` (in that order, each repeated) removed.
pub open spec fn declaration_core(line: Seq<char>) -> Seq<char> {
    strip_all(
        strip_all(
            strip_all(strip_all(strip_all(trim_start(line), "pub "@), "async "@), "export "@),
            "type "@,
        ),
        "const "@,
    )
}

/// The name after the first keyword of `name_prefixes()[i..]` that the core
/// starts with and that is followed by a non-empty name.
pub open spec fn name_from(core: Seq<char>, i: int) -> Option<Seq<char>>
    decreases name_prefixes().len() - i,
{
    if i < 0 || i >= name_prefixes().len() {
        None
    } else if starts_with(core, name_prefixes()[i]) && name_head(
        core.skip(name_prefixes()[i].len() as int),
    ).len() > 0 {
        Some(name_head(core.skip(name_prefixes()[i].len() as int)))
    } else {
        name_from(core, i + 1)
    }
}

/// The structure name a boundary line declares, if any.
pub open spec fn spec_extract_name(line: Seq<char>) -> Option<Seq<char>> {
    name_from(declaration_core(line), 0)
}

/// A line that starts with one keyword never starts with another: no
/// keyword is a prefix of another.
proof fn lemma_name_prefix_exclusive(j: int, k: int, rest: Seq<char>)
    requires
        0 <= j < name_prefixes().len(),
        0 <= k < name_prefixes().len(),
        j != k,
    ensures
        !starts_with(name_prefixes()[k] + rest, name_prefixes()[j]),
{
    reveal_strlit("fn ");
    reveal_strlit("struct ");
    reveal_strlit("enum ");
    reveal_strlit("trait ");
    reveal_strlit("impl ");
    reveal_strlit("mod ");
    reveal_strlit("class ");
    reveal_strlit("def ");
    reveal_strlit("function ");
    reveal_strlit("interface ");
    let a = name_prefixes()[k];
    let b = name_prefixes()[j];
    let line = a + rest;
    assert(a.len() >= 3 && b.len() >= 3);
    assert(line[0] == a[0] && line[1] == a[1]);
    if starts_with(line, b) {
        assert(line.take(b.len() as int)[0] == b[0]);
        assert(line.take(b.len() as int)[1] == b[1]);
        assert(a[0] == b[0] && a[1] == b[1]);
    }
}

/// The name of a declaration that begins with a keyword: a line made of a
/// keyword (`fn `, `struct `, `enum `, `trait `, `impl `, `mod `, `class `,
/// `def `, `function `, `interface `), a non-empty name free of `(`, `<`,
/// `{`, `:` and whitespace, and anything that starts with one of those
/// characters, declares that name.
pub proof fn lemma_extract_name_after_keyword(k: int, name: Seq<char>, tail: Seq<char>)
    requires
        0 <= k < name_prefixes().len(),
        name.len() > 0,
        forall|i: int| 0 <= i < name.len() ==> !is_name_delimiter(#[trigger] name[i]),
        tail.len() == 0 || is_name_delimiter(tail[0]),
    ensures
        spec_extract_name(name_prefixes()[k] + name + tail) == Some(name),
{
    reveal_strlit("fn ");
    reveal_strlit("struct ");
    reveal_strlit("enum ");
    reveal_strlit("trait ");
    reveal_strlit("impl ");
    reveal_strlit("mod ");
    reveal_strlit("class ");
    reveal_strlit("def ");
    reveal_strlit("function ");
    reveal_strlit("interface ");
    reveal_strlit("pub ");
    reveal_strlit("async ");
    reveal_strlit("export ");
    reveal_strlit("type ");
    reveal_strlit("const ");
    let p = name_prefixes()[k];
    let line = p + (name + tail);
    assert(p + name + tail =~= line);
    assert(line[0] == p[0] && line[1] == p[1]);
    assert(!is_ws(line[0]) && (line[0] != 'p' || line[1] != 'u') && (line[0] != 'a'
        || line[1] != 's') && (line[0] != 'e' || line[1] != 'x') && (line[0] != 't'
        || line[1] != 'y') && (line[0] != 'c' || line[1] != 'o')) by {
        if k == 0 {
        } else if k == 1 {
        } else if k == 2 {
        } else if k == 3 {
        } else if k == 4 {
        } else if k == 5 {
        } else if k == 6 {
        } else if k == 7 {
        } else if k == 8 {
        } else if k == 9 {
        }
    }
    assert(trim_start(line) == line);
    lemma_strip_absent(line, "pub "@);
    lemma_strip_absent(line, "async "@);
    lemma_strip_absent(line, "export "@);
    lemma_strip_absent(line, "type "@);
    lemma_strip_absent(line, "const "@);
    assert(declaration_core(line) == line);
    assert(line.skip(p.len() as int) =~= name + tail);
    lemma_name_head_of(name, tail);
    assert(line.take(p.len() as int) =~= p);
    assert forall|j: int| 0 <= j < name_prefixes().len() && j != k implies !starts_with(
        line,
        #[trigger] name_prefixes()[j],
    ) by {
        lemma_name_prefix_exclusive(j, k, name + tail);
    }
    lemma_name_from_reaches(line, k, 0);
}

/// Stripping a word a text does not start with leaves the text, for the
/// words stripped before a declaration's keyword and lines that start with
/// a keyword.
proof fn lemma_strip_absent(s: Seq<char>, w: Seq<char>)
    requires
        w.len() >= 2,
        s.len() >= 2,
        s[0] != w[0] || s[1] != w[1],
    ensures
        strip_all(s, w) == s,
{
    if starts_with(s, w) {
        assert(s.take(w.len() as int)[0] == w[0]);
        assert(s.take(w.len() as int)[1] == w[1]);
    }
}

/// The name head of a name followed by a delimiter (or nothing) is the name.
proof fn lemma_name_head_of(name: Seq<char>, tail: Seq<char>)
    requires
        forall|i: int| 0 <= i < name.len() ==> !is_name_delimiter(#[trigger] name[i]),
        tail.len() == 0 || is_name_delimiter(tail[0]),
    ensures
        name_head(name + tail) == name,
    decreases name.len(),
{
    if name.len() == 0 {
        assert(name + tail =~= tail);
    } else {
        let r = name.drop_first();
        assert forall|i: int| 0 <= i < r.len() implies !is_name_delimiter(#[trigger] r[i]) by {
            assert(r[i] == name[i + 1]);
        }
        lemma_name_head_of(r, tail);
        assert((name + tail).drop_first() =~= r + tail);
        assert(seq![name[0]] + r =~= name);
    }
}

/// Searching the keywords from `i` on finds the keyword at `k` for a line
/// that starts with it and a name after it.
proof fn lemma_name_from_reaches(line: Seq<char>, k: int, i: int)
    requires
        0 <= i <= k < name_prefixes().len(),
        starts_with(line, name_prefixes()[k]),
        name_head(line.skip(name_prefixes()[k].len() as int)).len() > 0,
        forall|j: int| 0 <= j < name_prefixes().len() && j != k ==> !starts_with(line, #[trigger] name_prefixes()[j]),
    ensures
        name_from(line, i) == Some(name_head(line.skip(name_prefixes()[k].len() as int))),
    decreases k - i,
{
    if i < k {
        lemma_name_from_reaches(line, k, i + 1);
    }
}

fn name_prefix_list() -> (v: Vec<&'static str>)
    ensures
        v@.len() == name_prefixes().len(),
        forall|i: int| 0 <= i < v@.len() ==> #[trigger] v@[i]@ == name_prefixes()[i],
{
    vec!["fn ", "struct ", "enum ", "trait ", "impl ", "mod ", "class ", "def ", "function ", "interface "]
}

fn name_head_chars(s: &[char]) -> (r: Vec<char>)
    ensures
        r@ == name_head(s@),
{
    let mut r: Vec<char> = Vec::new();
    let mut i: usize = 0;
    while i < s.len() && !(s[i] == '(' || s[i] == '<' || s[i] == '{' || s[i] == ':'
        || is_whitespace(s[i]))
        invariant
            i <= s@.len(),
            forall|k: int| 0 <= k < i ==> !is_name_delimiter(#[trigger] s@[k]),
            r@ == s@.take(i as int),
        decreases s@.len() - i,
    {
        r.push(s[i]);
        assert(s@.take(i + 1) =~= s@.take(i as int).push(s@[i as int]));
        i = i + 1;
    }
    proof {
        lemma_name_head_prefix(s@, i as int);
    }
    r
}

proof fn lemma_name_head_prefix(s: Seq<char>, i: int)
    requires
        0 <= i <= s.len(),
        forall|k: int| 0 <= k < i ==> !is_name_delimiter(#[trigger] s[k]),
        i == s.len() || is_name_delimiter(s[i]),
    ensures
        name_head(s) == s.take(i),
    decreases i,
{
    if i == 0 {
        assert(s.take(0) =~= Seq::<char>::empty());
    } else {
        lemma_name_head_prefix(s.drop_first(), i - 1);
        assert(seq![s[0]] + s.drop_first().take(i - 1) =~= s.take(i));
    }
}

fn name_from_chars(core: &[char]) -> (r: Option<Vec<char>>)
    ensures
        r is None <==> name_from(core@, 0) is None,
        r matches Some(n) ==> name_from(core@, 0) == Some(n@),
{
    let prefixes = name_prefix_list();
    let mut i: usize = 0;
    while i < prefixes.len()
        invariant
            prefixes@.len() == name_prefixes().len(),
            forall|k: int| 0 <= k < prefixes@.len() ==> #[trigger] prefixes@[k]@
                == name_prefixes()[k],
            i <= prefixes@.len(),
            name_from(core@, 0) == name_from(core@, i as int),
        decreases prefixes@.len() - i,
    {
        let p = chars_of(prefixes[i]);
        if crate::text::starts_with_chars(core, p.as_slice()) {
            let rest = skip_chars(core, p.len());
            let name = name_head_chars(rest.as_slice());
            if name.len() > 0 {
                return Some(name);
            }
        }
        i = i + 1;
    }
    None
}

/// The name declared by a structure line: `fn create_workflow() {` gives
/// `create_workflow`, `impl Handler for Server {` gives `Handler`.
pub fn extract_name(line: &str) -> (r: Option<String>)
    ensures
        r is None <==> spec_extract_name(line@) is None,
        r matches Some(n) ==> spec_extract_name(line@) == Some(n@),
{
    let cs = chars_of(line);
    extract_name_chars(cs.as_slice())
}

fn extract_name_chars(line: &[char]) -> (r: Option<String>)
    ensures
        opt_view(r) == spec_extract_name(line@),
{
    let t = trim_start_chars(line);
    let core = strip_all_str(
        strip_all_str(
            strip_all_str(strip_all_str(strip_all_str(t, "pub "), "async "), "export "),
            "type ",
        ),
        "const ",
    );
    match name_from_chars(core.as_slice()) {
        Some(n) => Some(string_from_chars(n.as_slice())),
        None => None,
    }
}

/// The language identifier for a file extension (unknown extensions map to
/// themselves).
pub open spec fn language_of(ext: Seq<char>) -> Seq<char> {
    if ext == "rs"@ {
        "rust"@
    } else if ext == "ts"@ || ext == "tsx"@ {
        "typescript"@
    } else if ext == "js"@ || ext == "jsx"@ {
        "javascript"@
    } else if ext == "py"@ {
        "python"@
    } else if ext == "toml"@ {
        "toml"@
    } else if ext == "json"@ {
        "json"@
    } else if ext == "md"@ {
        "markdown"@
    } else if ext == "go"@ {
        "go"@
    } else if ext == "java"@ {
        "java"@
    } else if ext == "c"@ || ext == "h"@ {
        "c"@
    } else if ext == "cpp"@ || ext == "hpp"@ {
        "cpp"@
    } else {
        ext
    }
}

/// The language of each indexed extension: `rs` is rust, `ts`/`tsx`
/// typescript, `js`/`jsx` javascript, `py` python, `toml` toml, `json` json,
/// `md` markdown, `go` go, `java` java, `c`/`h` c and `cpp`/`hpp` cpp; any
/// other extension is its own label. So only `js`, `jsx` (and the extension
/// `javascript` itself) are labelled javascript.
pub proof fn lemma_language_table(ext: Seq<char>)
    ensures
        language_of("rs"@) == "rust"@,
        language_of("ts"@) == "typescript"@,
        language_of("tsx"@) == "typescript"@,
        language_of("js"@) == "javascript"@,
        language_of("jsx"@) == "javascript"@,
        language_of("py"@) == "python"@,
        language_of("toml"@) == "toml"@,
        language_of("json"@) == "json"@,
        language_of("md"@) == "markdown"@,
        language_of("go"@) == "go"@,
        language_of("java"@) == "java"@,
        language_of("c"@) == "c"@,
        language_of("h"@) == "c"@,
        language_of("cpp"@) == "cpp"@,
        language_of("hpp"@) == "cpp"@,
        language_of(ext) == "javascript"@ ==> ext == "js"@ || ext == "jsx"@ || ext == "javascript"@,
        !(ext == "rs"@ || ext == "ts"@ || ext == "tsx"@ || ext == "js"@ || ext == "jsx"@ || ext == "py"@
            || ext == "toml"@ || ext == "json"@ || ext == "md"@ || ext == "go"@ || ext == "java"@ || ext
            == "c"@ || ext == "h"@ || ext == "cpp"@ || ext == "hpp"@) ==> language_of(ext) == ext,
{
    reveal_strlit("rs");
    reveal_strlit("ts");
    reveal_strlit("tsx");
    reveal_strlit("js");
    reveal_strlit("jsx");
    reveal_strlit("py");
    reveal_strlit("toml");
    reveal_strlit("json");
    reveal_strlit("md");
    reveal_strlit("go");
    reveal_strlit("java");
    reveal_strlit("c");
    reveal_strlit("h");
    reveal_strlit("cpp");
    reveal_strlit("hpp");
    reveal_strlit("rust");
    reveal_strlit("typescript");
    reveal_strlit("javascript");
    reveal_strlit("python");
    reveal_strlit("markdown");
    assert("rs"@[0] == 'r' && "ts"@[0] == 't' && "js"@[0] == 'j' && "py"@[0] == 'p' && "md"@[0] == 'm'
        && "go"@[0] == 'g');
    assert("tsx"@[0] == 't' && "jsx"@[0] == 'j' && "cpp"@[0] == 'c' && "hpp"@[0] == 'h');
    assert("c"@[0] == 'c' && "h"@[0] == 'h');
    assert("toml"@[1] == 'o' && "json"@[1] == 's' && "java"@[1] == 'a');
    assert("typescript"@[0] == 't' && "javascript"@[0] == 'j');
    assert(language_of("hpp"@) == "cpp"@) by {
        assert("hpp"@.len() == 3);
        assert("hpp"@ != "rs"@ && "hpp"@ != "ts"@ && "hpp"@ != "js"@ && "hpp"@ != "py"@);
        assert("hpp"@ != "tsx"@ && "hpp"@ != "jsx"@ && "hpp"@ != "cpp"@);
        assert("hpp"@ != "toml"@ && "hpp"@ != "json"@ && "hpp"@ != "md"@ && "hpp"@ != "go"@);
        assert("hpp"@ != "java"@ && "hpp"@ != "c"@ && "hpp"@ != "h"@);
    }
}

/// Maps a file extension to its language identifier.
pub fn ext_to_language<'a>(ext: &'a str) -> (r: &'a str)
    ensures
        r@ == language_of(ext@),
{
    if str_eq(ext, "rs") {
        "rust"
    } else if str_eq(ext, "ts") || str_eq(ext, "tsx") {
        "typescript"
    } else if str_eq(ext, "js") || str_eq(ext, "jsx") {
        "javascript"
    } else if str_eq(ext, "py") {
        "python"
    } else if str_eq(ext, "toml") {
        "toml"
    } else if str_eq(ext, "json") {
        "json"
    } else if str_eq(ext, "md") {
        "markdown"
    } else if str_eq(ext, "go") {
        "go"
    } else if str_eq(ext, "java") {
        "java"
    } else if str_eq(ext, "c") || str_eq(ext, "h") {
        "c"
    } else if str_eq(ext, "cpp") || str_eq(ext, "hpp") {
        "cpp"
    } else {
        ext
    }
}

/// Extensions of the files that are indexed.
pub open spec fn indexed_extensions() -> Seq<Seq<char>> {
    seq![
        "rs"@,
        "ts"@,
        "tsx"@,
        "js"@,
        "jsx"@,
        "py"@,
        "toml"@,
        "md"@,
        "go"@,
        "java"@,
        "c"@,
        "h"@,
        "cpp"@,
        "hpp"@,
    ]
}

/// Directory names the indexer never descends into.
pub open spec fn skipped_dirs() -> Seq<Seq<char>> {
    seq![
        "target"@,
        "node_modules"@,
        ".git"@,
        "dist"@,
        "build"@,
        ".next"@,
        "__pycache__"@,
        ".venv"@,
        "out"@,
        ".masday"@,
        "coverage"@,
        ".turbo"@,
    ]
}

/// The extensions indexed for code search are exactly rs, ts, tsx, js, jsx,
/// py, toml, md, go, java, c, h, cpp and hpp (not json, nor any other).
pub proof fn lemma_indexed_extensions(ext: Seq<char>)
    ensures
        indexed_extensions().contains(ext) <==> (ext == "rs"@
            || ext == "ts"@
            || ext == "tsx"@
            || ext == "js"@
            || ext == "jsx"@
            || ext == "py"@
            || ext == "toml"@
            || ext == "md"@
            || ext == "go"@
            || ext == "java"@
            || ext == "c"@
            || ext == "h"@
            || ext == "cpp"@
            || ext == "hpp"@),
{
    let l = indexed_extensions();
    assert(l[0] == "rs"@);
    assert(l[1] == "ts"@);
    assert(l[2] == "tsx"@);
    assert(l[3] == "js"@);
    assert(l[4] == "jsx"@);
    assert(l[5] == "py"@);
    assert(l[6] == "toml"@);
    assert(l[7] == "md"@);
    assert(l[8] == "go"@);
    assert(l[9] == "java"@);
    assert(l[10] == "c"@);
    assert(l[11] == "h"@);
    assert(l[12] == "cpp"@);
    assert(l[13] == "hpp"@);
    if l.contains(ext) {
        let i = choose|i: int| 0 <= i < l.len() && l[i] == ext;
        if i == 0 { assert(ext == "rs"@); }
        if i == 1 { assert(ext == "ts"@); }
        if i == 2 { assert(ext == "tsx"@); }
        if i == 3 { assert(ext == "js"@); }
        if i == 4 { assert(ext == "jsx"@); }
        if i == 5 { assert(ext == "py"@); }
        if i == 6 { assert(ext == "toml"@); }
        if i == 7 { assert(ext == "md"@); }
        if i == 8 { assert(ext == "go"@); }
        if i == 9 { assert(ext == "java"@); }
        if i == 10 { assert(ext == "c"@); }
        if i == 11 { assert(ext == "h"@); }
        if i == 12 { assert(ext == "cpp"@); }
        if i == 13 { assert(ext == "hpp"@); }
    }
}

/// The directories skipped while indexing are exactly target, node_modules,
/// .git, dist, build, .next, __pycache__, .venv, out, .masday, coverage and
/// .turbo.
pub proof fn lemma_skipped_dirs(name: Seq<char>)
    ensures
        skipped_dirs().contains(name) <==> (name == "target"@
            || name == "node_modules"@
            || name == ".git"@
            || name == "dist"@
            || name == "build"@
            || name == ".next"@
            || name == "__pycache__"@
            || name == ".venv"@
            || name == "out"@
            || name == ".masday"@
            || name == "coverage"@
            || name == ".turbo"@),
{
    let l = skipped_dirs();
    assert(l[0] == "target"@);
    assert(l[1] == "node_modules"@);
    assert(l[2] == ".git"@);
    assert(l[3] == "dist"@);
    assert(l[4] == "build"@);
    assert(l[5] == ".next"@);
    assert(l[6] == "__pycache__"@);
    assert(l[7] == ".venv"@);
    assert(l[8] == "out"@);
    assert(l[9] == ".masday"@);
    assert(l[10] == "coverage"@);
    assert(l[11] == ".turbo"@);
    if l.contains(name) {
        let i = choose|i: int| 0 <= i < l.len() && l[i] == name;
        if i == 0 { assert(name == "target"@); }
        if i == 1 { assert(name == "node_modules"@); }
        if i == 2 { assert(name == ".git"@); }
        if i == 3 { assert(name == "dist"@); }
        if i == 4 { assert(name == "build"@); }
        if i == 5 { assert(name == ".next"@); }
        if i == 6 { assert(name == "__pycache__"@); }
        if i == 7 { assert(name == ".venv"@); }
        if i == 8 { assert(name == "out"@); }
        if i == 9 { assert(name == ".masday"@); }
        if i == 10 { assert(name == "coverage"@); }
        if i == 11 { assert(name == ".turbo"@); }
    }
}

/// A line opens a new chunk exactly when, after its leading whitespace, it
/// starts with one of the declaration keywords followed by a space: `fn`,
/// `async fn`, `struct`, `enum`, `trait`, `impl`, `mod` (each also after
/// `pub `, with `pub async fn`), `class`, `def`, `async def`, `function`,
/// `export function`, `export async function`, `interface`, `type`,
/// `export type`, `const` and `export const`.
pub proof fn lemma_boundary_lines(line: Seq<char>)
    ensures
        spec_is_boundary(line) <==> (starts_with(trim_start(line), "pub fn "@)
            || starts_with(trim_start(line), "pub async fn "@)
            || starts_with(trim_start(line), "async fn "@)
            || starts_with(trim_start(line), "fn "@)
            || starts_with(trim_start(line), "pub struct "@)
            || starts_with(trim_start(line), "struct "@)
            || starts_with(trim_start(line), "pub enum "@)
            || starts_with(trim_start(line), "enum "@)
            || starts_with(trim_start(line), "pub trait "@)
            || starts_with(trim_start(line), "trait "@)
            || starts_with(trim_start(line), "impl "@)
            || starts_with(trim_start(line), "pub impl "@)
            || starts_with(trim_start(line), "mod "@)
            || starts_with(trim_start(line), "pub mod "@)
            || starts_with(trim_start(line), "class "@)
            || starts_with(trim_start(line), "def "@)
            || starts_with(trim_start(line), "async def "@)
            || starts_with(trim_start(line), "function "@)
            || starts_with(trim_start(line), "export function "@)
            || starts_with(trim_start(line), "export async function "@)
            || starts_with(trim_start(line), "interface "@)
            || starts_with(trim_start(line), "type "@)
            || starts_with(trim_start(line), "export type "@)
            || starts_with(trim_start(line), "const "@)
            || starts_with(trim_start(line), "export const "@)),
{
    let l = boundary_prefixes();
    let t = trim_start(line);
    assert(l[0] == "pub fn "@);
    assert(l[1] == "pub async fn "@);
    assert(l[2] == "async fn "@);
    assert(l[3] == "fn "@);
    assert(l[4] == "pub struct "@);
    assert(l[5] == "struct "@);
    assert(l[6] == "pub enum "@);
    assert(l[7] == "enum "@);
    assert(l[8] == "pub trait "@);
    assert(l[9] == "trait "@);
    assert(l[10] == "impl "@);
    assert(l[11] == "pub impl "@);
    assert(l[12] == "mod "@);
    assert(l[13] == "pub mod "@);
    assert(l[14] == "class "@);
    assert(l[15] == "def "@);
    assert(l[16] == "async def "@);
    assert(l[17] == "function "@);
    assert(l[18] == "export function "@);
    assert(l[19] == "export async function "@);
    assert(l[20] == "interface "@);
    assert(l[21] == "type "@);
    assert(l[22] == "export type "@);
    assert(l[23] == "const "@);
    assert(l[24] == "export const "@);
    if spec_is_boundary(line) {
        let i = choose|i: int| 0 <= i < l.len() && starts_with(t, #[trigger] l[i]);
        if i == 0 { assert(starts_with(t, "pub fn "@)); }
        if i == 1 { assert(starts_with(t, "pub async fn "@)); }
        if i == 2 { assert(starts_with(t, "async fn "@)); }
        if i == 3 { assert(starts_with(t, "fn "@)); }
        if i == 4 { assert(starts_with(t, "pub struct "@)); }
        if i == 5 { assert(starts_with(t, "struct "@)); }
        if i == 6 { assert(starts_with(t, "pub enum "@)); }
        if i == 7 { assert(starts_with(t, "enum "@)); }
        if i == 8 { assert(starts_with(t, "pub trait "@)); }
        if i == 9 { assert(starts_with(t, "trait "@)); }
        if i == 10 { assert(starts_with(t, "impl "@)); }
        if i == 11 { assert(starts_with(t, "pub impl "@)); }
        if i == 12 { assert(starts_with(t, "mod "@)); }
        if i == 13 { assert(starts_with(t, "pub mod "@)); }
        if i == 14 { assert(starts_with(t, "class "@)); }
        if i == 15 { assert(starts_with(t, "def "@)); }
        if i == 16 { assert(starts_with(t, "async def "@)); }
        if i == 17 { assert(starts_with(t, "function "@)); }
        if i == 18 { assert(starts_with(t, "export function "@)); }
        if i == 19 { assert(starts_with(t, "export async function "@)); }
        if i == 20 { assert(starts_with(t, "interface "@)); }
        if i == 21 { assert(starts_with(t, "type "@)); }
        if i == 22 { assert(starts_with(t, "export type "@)); }
        if i == 23 { assert(starts_with(t, "const "@)); }
        if i == 24 { assert(starts_with(t, "export const "@)); }
    }
    if starts_with(t, "pub fn "@) { assert(starts_with(t, l[0])); }
    if starts_with(t, "pub async fn "@) { assert(starts_with(t, l[1])); }
    if starts_with(t, "async fn "@) { assert(starts_with(t, l[2])); }
    if starts_with(t, "fn "@) { assert(starts_with(t, l[3])); }
    if starts_with(t, "pub struct "@) { assert(starts_with(t, l[4])); }
    if starts_with(t, "struct "@) { assert(starts_with(t, l[5])); }
    if starts_with(t, "pub enum "@) { assert(starts_with(t, l[6])); }
    if starts_with(t, "enum "@) { assert(starts_with(t, l[7])); }
    if starts_with(t, "pub trait "@) { assert(starts_with(t, l[8])); }
    if starts_with(t, "trait "@) { assert(starts_with(t, l[9])); }
    if starts_with(t, "impl "@) { assert(starts_with(t, l[10])); }
    if starts_with(t, "pub impl "@) { assert(starts_with(t, l[11])); }
    if starts_with(t, "mod "@) { assert(starts_with(t, l[12])); }
    if starts_with(t, "pub mod "@) { assert(starts_with(t, l[13])); }
    if starts_with(t, "class "@) { assert(starts_with(t, l[14])); }
    if starts_with(t, "def "@) { assert(starts_with(t, l[15])); }
    if starts_with(t, "async def "@) { assert(starts_with(t, l[16])); }
    if starts_with(t, "function "@) { assert(starts_with(t, l[17])); }
    if starts_with(t, "export function "@) { assert(starts_with(t, l[18])); }
    if starts_with(t, "export async function "@) { assert(starts_with(t, l[19])); }
    if starts_with(t, "interface "@) { assert(starts_with(t, l[20])); }
    if starts_with(t, "type "@) { assert(starts_with(t, l[21])); }
    if starts_with(t, "export type "@) { assert(starts_with(t, l[22])); }
    if starts_with(t, "const "@) { assert(starts_with(t, l[23])); }
    if starts_with(t, "export const "@) { assert(starts_with(t, l[24])); }
}

fn member_of(x: &str, list: &Vec<&'static str>, Ghost(spec_list): Ghost<Seq<Seq<char>>>) -> (r: bool)
    requires
        list@.len() == spec_list.len(),
        forall|i: int| 0 <= i < list@.len() ==> #[trigger] list@[i]@ == spec_list[i],
    ensures
        r == spec_list.contains(x@),
{
    let mut i: usize = 0;
    while i < list.len()
        invariant
            list@.len() == spec_list.len(),
            forall|k: int| 0 <= k < list@.len() ==> #[trigger] list@[k]@ == spec_list[k],
            i <= list@.len(),
            forall|k: int| 0 <= k < i ==> #[trigger] spec_list[k] != x@,
        decreases list@.len() - i,
    {
        if str_eq(x, list[i]) {
            assert(spec_list[i as int] == x@);
            return true;
        }
        i = i + 1;
    }
    proof {
        if spec_list.contains(x@) {
            let k = choose|k: int| 0 <= k < spec_list.len() && spec_list[k] == x@;
            assert(spec_list[k] != x@);
        }
    }
    false
}

/// Whether files with this extension are indexed.
pub fn should_index(ext: &str) -> (r: bool)
    ensures
        r == indexed_extensions().contains(ext@),
{
    let list: Vec<&'static str> = vec![
        "rs",
        "ts",
        "tsx",
        "js",
        "jsx",
        "py",
        "toml",
        "md",
        "go",
        "java",
        "c",
        "h",
        "cpp",
        "hpp",
    ];
    member_of(ext, &list, Ghost(indexed_extensions()))
}

/// Whether the indexer skips a directory with this name.
pub fn is_skipped_dir(name: &str) -> (r: bool)
    ensures
        r == skipped_dirs().contains(name@),
{
    let list: Vec<&'static str> = vec![
        "target",
        "node_modules",
        ".git",
        "dist",
        "build",
        ".next",
        "__pycache__",
        ".venv",
        "out",
        ".masday",
        "coverage",
        ".turbo",
    ];
    member_of(name, &list, Ghost(skipped_dirs()))
}

/// Whether a file is chunked again: unless its stored chunks carry the
/// hash of its current content.
pub fn needs_reindex(stored_hash: Option<&str>, file_hash: &str) -> (r: bool)
    ensures
        r == match stored_hash {
            Some(h) => h@ != file_hash@,
            None => true,
        },
{
    match stored_hash {
        Some(h) => !str_eq(h, file_hash),
        None => true,
    }
}

/// Whether a file's stored chunks are dropped before a search: when the
/// file can no longer be read, or its content hash changed.
pub fn chunks_stale(stored_hash: &str, current_hash: Option<&str>) -> (r: bool)
    ensures
        r == match current_hash {
            Some(h) => h@ != stored_hash@,
            None => true,
        },
{
    match current_hash {
        Some(h) => !str_eq(h, stored_hash),
        None => true,
    }
}

/// The arguments of the `grep` run when no indexed chunk matches a search:
/// recursive, with line numbers, over source files only, outside build and
/// dependency directories.
pub open spec fn grep_args_spec(query: Seq<char>, project_path: Seq<char>) -> Seq<Seq<char>> {
    seq![
        "-rn"@,
        "--include=*.rs"@,
        "--include=*.ts"@,
        "--include=*.js"@,
        "--include=*.py"@,
        "--include=*.go"@,
        "--include=*.java"@,
        "--exclude-dir=node_modules"@,
        "--exclude-dir=target"@,
        "--exclude-dir=.git"@,
        "--exclude-dir=dist"@,
        "--exclude-dir=build"@,
        "--exclude-dir=.next"@,
        "--exclude-dir=__pycache__"@,
        "--exclude-dir=.venv"@,
        "--exclude-dir=out"@,
        query,
        project_path,
    ]
}

/// The `grep` arguments of [`grep_args_spec`].
pub fn grep_args(query: &str, project_path: &str) -> (r: Vec<String>)
    ensures
        r@.map_values(|s: String| s@) == grep_args_spec(query@, project_path@),
{
    let fixed: Vec<&'static str> = vec![
        "-rn",
        "--include=*.rs",
        "--include=*.ts",
        "--include=*.js",
        "--include=*.py",
        "--include=*.go",
        "--include=*.java",
        "--exclude-dir=node_modules",
        "--exclude-dir=target",
        "--exclude-dir=.git",
        "--exclude-dir=dist",
        "--exclude-dir=build",
        "--exclude-dir=.next",
        "--exclude-dir=__pycache__",
        "--exclude-dir=.venv",
        "--exclude-dir=out",
    ];
    let ghost spec = grep_args_spec(query@, project_path@);
    let mut out: Vec<String> = Vec::new();
    let mut i: usize = 0;
    while i < fixed.len()
        invariant
            spec == grep_args_spec(query@, project_path@),
            fixed@.len() == 16,
            forall|k: int| 0 <= k < 16 ==> #[trigger] fixed@[k]@ == spec[k],
            i <= 16,
            out@.len() == i,
            forall|k: int| 0 <= k < i ==> #[trigger] out@[k]@ == spec[k],
        decreases 16 - i,
    {
        out.push(fixed[i].to_string());
        i = i + 1;
    }
    out.push(query.to_string());
    out.push(project_path.to_string());
    assert(out@.map_values(|s: String| s@) =~= spec);
    out
}

/// The kind of chunk a boundary line opens.
pub open spec fn chunk_kind(line: Seq<char>) -> Seq<char> {
    let t = trim_start(line);
    if starts_with(t, "fn"@) || starts_with(t, "pub fn"@) || starts_with(t, "async fn"@)
        || starts_with(t, "pub async fn"@) || starts_with(t, "def "@) || starts_with(
        t,
        "async def "@,
    ) || starts_with(t, "function "@) {
        "function"@
    } else if starts_with(t, "struct"@) || starts_with(t, "pub struct"@) {
        "struct"@
    } else if starts_with(t, "impl"@) || starts_with(t, "pub impl"@) {
        "impl"@
    } else if starts_with(t, "enum"@) || starts_with(t, "pub enum"@) {
        "enum"@
    } else if starts_with(t, "trait"@) || starts_with(t, "pub trait"@) {
        "trait"@
    } else {
        "block"@
    }
}

/// The kind of a boundary line follows its first word, after leading
/// whitespace: `fn`, `pub fn`, `async fn`, `pub async fn`, `def `,
/// `async def ` and `function ` open a function; `struct`/`pub struct` a
/// struct; `impl`/`pub impl` an impl; `enum`/`pub enum` an enum;
/// `trait`/`pub trait` a trait; any other line a block.
pub proof fn lemma_chunk_kind_by_prefix(line: Seq<char>)
    ensures
        ({
            let t = trim_start(line);
            &&& (starts_with(t, "fn"@) || starts_with(t, "pub fn"@) || starts_with(t, "async fn"@)
                || starts_with(t, "pub async fn"@) || starts_with(t, "def "@) || starts_with(t, "async def "@)
                || starts_with(t, "function "@)) ==> chunk_kind(line) == "function"@
            &&& (starts_with(t, "struct"@) || starts_with(t, "pub struct"@)) ==> chunk_kind(line)
                == "struct"@
            &&& (starts_with(t, "impl"@) || starts_with(t, "pub impl"@)) ==> chunk_kind(line) == "impl"@
            &&& (starts_with(t, "enum"@) || starts_with(t, "pub enum"@)) ==> chunk_kind(line) == "enum"@
            &&& (starts_with(t, "trait"@) || starts_with(t, "pub trait"@)) ==> chunk_kind(line)
                == "trait"@
            &&& !(starts_with(t, "fn"@) || starts_with(t, "pub fn"@) || starts_with(t, "async fn"@)
                || starts_with(t, "pub async fn"@) || starts_with(t, "def "@) || starts_with(t, "async def "@)
                || starts_with(t, "function "@) || starts_with(t, "struct"@) || starts_with(t, "pub struct"@)
                || starts_with(t, "impl"@) || starts_with(t, "pub impl"@) || starts_with(t, "enum"@)
                || starts_with(t, "pub enum"@) || starts_with(t, "trait"@) || starts_with(t, "pub trait"@))
                ==> chunk_kind(line) == "block"@
        }),
{
    reveal_strlit("fn");
    reveal_strlit("pub fn");
    reveal_strlit("async fn");
    reveal_strlit("pub async fn");
    reveal_strlit("def ");
    reveal_strlit("async def ");
    reveal_strlit("function ");
    reveal_strlit("struct");
    reveal_strlit("pub struct");
    reveal_strlit("impl");
    reveal_strlit("pub impl");
    reveal_strlit("enum");
    reveal_strlit("pub enum");
    reveal_strlit("trait");
    reveal_strlit("pub trait");
    let t = trim_start(line);
    if starts_with(t, "struct"@) || starts_with(t, "impl"@) || starts_with(t, "enum"@) || starts_with(t, "trait"@) {
        assert(t.take(2)[0] == t[0]);
    }
    if starts_with(t, "pub struct"@) || starts_with(t, "pub impl"@) || starts_with(t, "pub enum"@)
        || starts_with(t, "pub trait"@) {
        assert(t.take(5)[4] == t[4]);
        assert(t.take(4)[0] == t[0]);
    }
}

fn chunk_kind_of(line: &[char]) -> (k: &'static str)
    ensures
        k@ == chunk_kind(line@),
{
    let t = trim_start_chars(line);
    let t = t.as_slice();
    if starts_with_str(t, "fn") || starts_with_str(t, "pub fn") || starts_with_str(t, "async fn")
        || starts_with_str(t, "pub async fn") || starts_with_str(t, "def ") || starts_with_str(
        t,
        "async def ",
    ) || starts_with_str(t, "function ") {
        "function"
    } else if starts_with_str(t, "struct") || starts_with_str(t, "pub struct") {
        "struct"
    } else if starts_with_str(t, "impl") || starts_with_str(t, "pub impl") {
        "impl"
    } else if starts_with_str(t, "enum") || starts_with_str(t, "pub enum") {
        "enum"
    } else if starts_with_str(t, "trait") || starts_with_str(t, "pub trait") {
        "trait"
    } else {
        "block"
    }
}

/// Chunks longer than this many lines are split in two.
pub const MAX_CHUNK_LINES: usize = 120;

/// Where an oversized chunk is split when no blank line is near.
pub const SPLIT_TARGET: usize = 60;

/// A chunk with fewer lines than this is merged into the previous one.
pub const MIN_CHUNK_LINES: usize = 2;

/// A run of lines `[start, end)` of a file, with the kind and name of the
/// chunk it becomes.
pub struct LinePiece {
    pub start: int,
    pub end: int,
    pub kind: Seq<char>,
    pub name: Option<Seq<char>>,
}

/// The abstract content of a [`CodeChunk`].
pub struct ChunkView {
    pub file_path: Seq<char>,
    pub language: Seq<char>,
    pub kind: Seq<char>,
    pub name: Option<Seq<char>>,
    pub start_line: int,
    pub end_line: int,
    pub content: Seq<char>,
}

/// A single code chunk extracted from a source file. Line numbers are
/// 1-based and inclusive.
#[derive(Debug)]
pub struct CodeChunk {
    pub file_path: String,
    pub language: String,
    pub chunk_type: String,
    pub name: Option<String>,
    pub start_line: usize,
    pub end_line: usize,
    pub content: String,
}

pub open spec fn opt_view(o: Option<String>) -> Option<Seq<char>> {
    match o {
        Some(s) => Some(s@),
        None => None,
    }
}

impl View for CodeChunk {
    type V = ChunkView;

    open spec fn view(&self) -> ChunkView {
        ChunkView {
            file_path: self.file_path@,
            language: self.language@,
            kind: self.chunk_type@,
            name: opt_view(self.name),
            start_line: self.start_line as int,
            end_line: self.end_line as int,
            content: self.content@,
        }
    }
}

/// Indices in `[1, m)` of the lines that open a structure, ascending.
pub open spec fn bounds_upto(ls: Seq<Seq<char>>, m: int) -> Seq<int>
    decreases m,
{
    if m <= 1 {
        Seq::empty()
    } else if spec_is_boundary(ls[m - 1]) {
        bounds_upto(ls, m - 1).push(m - 1)
    } else {
        bounds_upto(ls, m - 1)
    }
}

/// The `j`-th range of a file cut at boundaries `b`: a header range before the
/// first boundary, then one range per boundary up to the next.
pub open spec fn range_at(ls: Seq<Seq<char>>, b: Seq<int>, j: int) -> LinePiece {
    if j == 0 {
        LinePiece {
            start: 0,
            end: if b.len() > 0 {
                b[0]
            } else {
                ls.len() as int
            },
            kind: "file_header"@,
            name: None,
        }
    } else {
        LinePiece {
            start: b[j - 1],
            end: if j < b.len() {
                b[j]
            } else {
                ls.len() as int
            },
            kind: chunk_kind(ls[b[j - 1]]),
            name: spec_extract_name(ls[b[j - 1]]),
        }
    }
}

/// Offset (within a range starting at `s`) just past the first blank line at
/// offsets `[i, hi)`, or the default split target when there is none.
pub open spec fn first_blank(ls: Seq<Seq<char>>, s: int, i: int, hi: int) -> int
    decreases hi - i,
{
    if i >= hi {
        SPLIT_TARGET as int
    } else if is_blank(ls[s + i]) {
        i + 1
    } else {
        first_blank(ls, s, i + 1, hi)
    }
}

/// A piece, unless it holds no line.
pub open spec fn nonempty(p: LinePiece) -> Seq<LinePiece> {
    if p.start < p.end {
        seq![p]
    } else {
        Seq::empty()
    }
}

/// The pieces a range becomes: itself, or two halves when it is longer than
/// [`MAX_CHUNK_LINES`] (the second half unnamed).
pub open spec fn pieces_of_range(ls: Seq<Seq<char>>, r: LinePiece) -> Seq<LinePiece> {
    let len = r.end - r.start;
    if len > MAX_CHUNK_LINES {
        let hi = if len < SPLIT_TARGET + 30 {
            len
        } else {
            SPLIT_TARGET + 30
        };
        let sp = first_blank(ls, r.start, SPLIT_TARGET as int, hi);
        nonempty(LinePiece { start: r.start, end: r.start + sp, kind: r.kind, name: r.name })
            + nonempty(LinePiece { start: r.start + sp, end: r.end, kind: r.kind, name: None })
    } else {
        nonempty(r)
    }
}

/// The pieces of the first `m` ranges.
pub open spec fn pieces_upto(ls: Seq<Seq<char>>, b: Seq<int>, m: int) -> Seq<LinePiece>
    decreases m,
{
    if m <= 0 {
        Seq::empty()
    } else {
        pieces_upto(ls, b, m - 1) + pieces_of_range(ls, range_at(ls, b, m - 1))
    }
}

/// The chunk a piece of lines becomes.
pub open spec fn piece_view(ls: Seq<Seq<char>>, fp: Seq<char>, lang: Seq<char>, p: LinePiece) -> ChunkView {
    ChunkView {
        file_path: fp,
        language: lang,
        kind: p.kind,
        name: p.name,
        start_line: p.start + 1,
        end_line: p.end,
        content: join_lines(ls.subrange(p.start, p.end)),
    }
}

/// One merge step: a chunk of fewer than [`MIN_CHUNK_LINES`] lines is appended
/// to the previous chunk, any other chunk is kept on its own.
pub open spec fn merge_step(m: Seq<ChunkView>, c: ChunkView) -> Seq<ChunkView> {
    if m.len() > 0 && spec_lines(c.content).len() < MIN_CHUNK_LINES {
        m.update(
            m.len() - 1,
            ChunkView {
                end_line: c.end_line,
                content: m.last().content + seq!['\n'] + c.content,
                ..m.last()
            },
        )
    } else {
        m.push(c)
    }
}

/// The chunks left after merging, left to right.
pub open spec fn merge_chunks(cs: Seq<ChunkView>) -> Seq<ChunkView>
    decreases cs.len(),
{
    if cs.len() == 0 {
        Seq::empty()
    } else {
        merge_step(merge_chunks(cs.drop_last()), cs.last())
    }
}

/// The chunks of a file's content.
pub open spec fn spec_chunks(content: Seq<char>, fp: Seq<char>, lang: Seq<char>) -> Seq<ChunkView> {
    let ls = spec_lines(content);
    if ls.len() == 0 {
        Seq::empty()
    } else {
        let b = bounds_upto(ls, ls.len() as int);
        merge_chunks(
            pieces_upto(ls, b, b.len() + 1int).map_values(|p: LinePiece| piece_view(ls, fp, lang, p)),
        )
    }
}

proof fn lemma_bounds(ls: Seq<Seq<char>>, m: int)
    requires
        m <= ls.len(),
    ensures
        forall|k: int| 0 <= k < bounds_upto(ls, m).len() ==> 1 <= #[trigger] bounds_upto(ls, m)[k] < m,
        forall|k1: int, k2: int|
            0 <= k1 < k2 < bounds_upto(ls, m).len() ==> bounds_upto(ls, m)[k1] < bounds_upto(
                ls,
                m,
            )[k2],
        bounds_upto(ls, m).len() <= if m < 1 { 0 } else { m - 1 },
    decreases m,
{
    if m > 1 {
        lemma_bounds(ls, m - 1);
    }
}

/// Joins lines `[start, end)` with `'\n'`.
fn join_range(lines: &Vec<Vec<char>>, start: usize, end: usize, Ghost(ls): Ghost<Seq<Seq<char>>>) -> (r: Vec<char>)
    requires
        start < end <= lines@.len(),
        lines@.len() == ls.len(),
        forall|i: int| 0 <= i < lines@.len() ==> #[trigger] lines@[i]@ == ls[i],
    ensures
        r@ == join_lines(ls.subrange(start as int, end as int)),
{
    let mut acc: Vec<char> = Vec::new();
    let mut k: usize = start;
    while k < end
        invariant
            start <= k <= end <= lines@.len(),
            lines@.len() == ls.len(),
            forall|i: int| 0 <= i < lines@.len() ==> #[trigger] lines@[i]@ == ls[i],
            acc@ == join_lines(ls.subrange(start as int, k as int)),
        decreases end - k,
    {
        let ghost before = ls.subrange(start as int, k as int);
        let ghost after = ls.subrange(start as int, k + 1);
        assert(after.drop_last() =~= before);
        assert(after.last() == ls[k as int]);
        if k > start {
            acc.push('\n');
        } else {
            assert(after.len() == 1);
        }
        let line = &lines[k];
        let mut j: usize = 0;
        let ghost base = acc@;
        while j < line.len()
            invariant
                j <= line@.len(),
                acc@ == base + line@.take(j as int),
            decreases line@.len() - j,
        {
            acc.push(line[j]);
            assert(line@.take(j + 1) =~= line@.take(j as int).push(line@[j as int]));
            j = j + 1;
        }
        assert(line@.take(line@.len() as int) =~= line@);
        proof {
            if k > start {
                assert(acc@ =~= join_lines(before) + seq!['\n'] + ls[k as int]);
            } else {
                assert(before.len() == 0);
                assert(acc@ =~= ls[k as int]);
            }
        }
        k = k + 1;
    }
    acc
}

/// The number of lines `content` holds (`str::lines().count()`).
fn line_count(content: &str) -> (n: usize)
    ensures
        n == spec_lines(content@).len(),
{
    let ls = split_lines(content);
    ls.len()
}

/// Adds a chunk at the end, merging it into the previous one when it has
/// fewer than [`MIN_CHUNK_LINES`] lines.
fn merge_push(merged: &mut Vec<CodeChunk>, c: CodeChunk)
    ensures
        final(merged)@.len() == merge_step(old(merged)@.map_values(|x: CodeChunk| x@), c@).len(),
        forall|i: int| 0 <= i < final(merged)@.len() ==> #[trigger] final(merged)@[i]@
            == merge_step(old(merged)@.map_values(|x: CodeChunk| x@), c@)[i],
{
    let ghost m = old(merged)@.map_values(|x: CodeChunk| x@);
    if merged.len() > 0 && line_count(c.content.as_str()) < MIN_CHUNK_LINES {
        let mut last = merged.pop().unwrap();
        let ghost lv = last@;
        assert(lv == m.last());
        last.end_line = c.end_line;
        last.content.append("\n");
        last.content.append(c.content.as_str());
        proof {
            reveal_strlit("\n");
        }
        assert(last.content@ =~= lv.content + seq!['\n'] + c.content@);
        merged.push(last);
        assert forall|i: int| 0 <= i < merged@.len() implies #[trigger] merged@[i]@ == merge_step(
            m,
            c@,
        )[i] by {
            if i < merged@.len() - 1 {
                assert(merged@[i] == old(merged)@[i]);
            }
        }
    } else {
        merged.push(c);
        assert forall|i: int| 0 <= i < merged@.len() implies #[trigger] merged@[i]@ == merge_step(
            m,
            c@,
        )[i] by {
            if i < merged@.len() - 1 {
                assert(merged@[i] == old(merged)@[i]);
            }
        }
    }
}

fn make_chunk(
    lines: &Vec<Vec<char>>,
    start: usize,
    end: usize,
    file_path: &str,
    language: &str,
    kind: &str,
    name: Option<String>,
    Ghost(ls): Ghost<Seq<Seq<char>>>,
) -> (c: CodeChunk)
    requires
        start < end <= lines@.len(),
        lines@.len() == ls.len(),
        forall|i: int| 0 <= i < lines@.len() ==> #[trigger] lines@[i]@ == ls[i],
    ensures
        c@ == piece_view(
            ls,
            file_path@,
            language@,
            LinePiece { start: start as int, end: end as int, kind: kind@, name: opt_view(name) },
        ),
{
    let content = join_range(lines, start, end, Ghost(ls));
    CodeChunk {
        file_path: file_path.to_owned(),
        language: language.to_owned(),
        chunk_type: kind.to_owned(),
        name,
        start_line: start + 1,
        end_line: end,
        content: string_from_chars(content.as_slice()),
    }
}

/// Offset just past the first blank line among offsets `[60, min(len, 90))` of
/// a range starting at `start`, or 60.
fn split_point(lines: &Vec<Vec<char>>, start: usize, len: usize, Ghost(ls): Ghost<Seq<Seq<char>>>) -> (sp: usize)
    requires
        len > MAX_CHUNK_LINES,
        start + len <= lines@.len(),
        lines@.len() == ls.len(),
        forall|i: int| 0 <= i < lines@.len() ==> #[trigger] lines@[i]@ == ls[i],
    ensures
        sp == first_blank(
            ls,
            start as int,
            SPLIT_TARGET as int,
            if len < SPLIT_TARGET + 30 {
                len as int
            } else {
                SPLIT_TARGET + 30
            },
        ),
        SPLIT_TARGET <= sp <= SPLIT_TARGET + 30,
{
    let hi: usize = if len < SPLIT_TARGET + 30 {
        len
    } else {
        SPLIT_TARGET + 30
    };
    let total = lines.len();
    let mut i: usize = SPLIT_TARGET;
    while i < hi
        invariant
            total == lines@.len(),
            hi as int == if len < SPLIT_TARGET + 30 {
                len as int
            } else {
                SPLIT_TARGET + 30
            },
            SPLIT_TARGET <= i <= hi <= SPLIT_TARGET + 30,
            hi <= len,
            start + len <= lines@.len(),
            lines@.len() == ls.len(),
            forall|k: int| 0 <= k < lines@.len() ==> #[trigger] lines@[k]@ == ls[k],
            first_blank(ls, start as int, SPLIT_TARGET as int, hi as int) == first_blank(
                ls,
                start as int,
                i as int,
                hi as int,
            ),
        decreases hi - i,
    {
        assert(lines@[start + i]@ == ls[start + i]);
        if blank_chars(lines[start + i].as_slice()) {
            return i + 1;
        }
        i = i + 1;
    }
    SPLIT_TARGET
}

/// Pushes the chunk for lines `[start, end)` (nothing when empty), merging as
/// [`merge_step`] says.
fn push_piece(
    merged: &mut Vec<CodeChunk>,
    lines: &Vec<Vec<char>>,
    start: usize,
    end: usize,
    file_path: &str,
    language: &str,
    kind: &str,
    name: Option<String>,
    Ghost(ls): Ghost<Seq<Seq<char>>>,
    Ghost(done): Ghost<Seq<ChunkView>>,
) -> (new_done: Ghost<Seq<ChunkView>>)
    requires
        start <= end <= lines@.len(),
        lines@.len() == ls.len(),
        forall|i: int| 0 <= i < lines@.len() ==> #[trigger] lines@[i]@ == ls[i],
        old(merged)@.map_values(|x: CodeChunk| x@) == merge_chunks(done),
    ensures
        new_done@ == done + nonempty(
            LinePiece { start: start as int, end: end as int, kind: kind@, name: opt_view(name) },
        ).map_values(|p: LinePiece| piece_view(ls, file_path@, language@, p)),
        final(merged)@.map_values(|x: CodeChunk| x@) == merge_chunks(new_done@),
{
    let ghost piece = LinePiece {
        start: start as int,
        end: end as int,
        kind: kind@,
        name: opt_view(name),
    };
    if start < end {
        let c = make_chunk(lines, start, end, file_path, language, kind, name, Ghost(ls));
        let ghost m = merged@.map_values(|x: CodeChunk| x@);
        merge_push(merged, c);
        let ghost nd = done.push(c@);
        proof {
            assert(nd.drop_last() =~= done);
            assert(merged@.map_values(|x: CodeChunk| x@) =~= merge_step(m, c@));
            assert(nonempty(piece).map_values(|p: LinePiece| piece_view(ls, file_path@, language@, p))
                =~= seq![c@]);
            assert(nd =~= done + seq![c@]);
        }
        Ghost(nd)
    } else {
        assert(nonempty(piece).map_values(|p: LinePiece| piece_view(ls, file_path@, language@, p))
            =~= Seq::<ChunkView>::empty());
        assert(done + Seq::<ChunkView>::empty() =~= done);
        Ghost(done)
    }
}

/// Chunks a file's content into searchable pieces: a header before the first
/// structure line, one chunk per structure, oversized chunks split near a
/// blank line, and chunks of fewer than two lines merged into the previous.
pub fn chunk_file(content: &str, file_path: &str, language: &str) -> (r: Vec<CodeChunk>)
    ensures
        r@.map_values(|x: CodeChunk| x@) == spec_chunks(content@, file_path@, language@),
{
    let lines = split_lines(content);
    let ghost ls = spec_lines(content@);
    let n = lines.len();
    if n == 0 {
        let r: Vec<CodeChunk> = Vec::new();
        assert(r@.map_values(|x: CodeChunk| x@) =~= Seq::<ChunkView>::empty());
        return r;
    }
    // Structure lines (never the first line).
    let mut bounds: Vec<usize> = Vec::new();
    let mut j: usize = 1;
    while j < n
        invariant
            1 <= j <= n,
            n == lines@.len(),
            lines@.len() == ls.len(),
            forall|i: int| 0 <= i < lines@.len() ==> #[trigger] lines@[i]@ == ls[i],
            bounds@.len() == bounds_upto(ls, j as int).len(),
            forall|k: int| 0 <= k < bounds@.len() ==> #[trigger] bounds@[k] as int == bounds_upto(
                ls,
                j as int,
            )[k],
        decreases n - j,
    {
        if boundary_chars(lines[j].as_slice()) {
            bounds.push(j);
        }
        j = j + 1;
    }
    let ghost b = bounds_upto(ls, n as int);
    proof {
        lemma_bounds(ls, n as int);
    }
    let mut merged: Vec<CodeChunk> = Vec::new();
    let ghost mut done: Seq<ChunkView> = Seq::empty();
    assert(merged@.map_values(|x: CodeChunk| x@) =~= merge_chunks(done));
    let mut m: usize = 0;
    while m <= bounds.len()
        invariant
            n == lines@.len(),
            n > 0,
            lines@.len() == ls.len(),
            forall|i: int| 0 <= i < lines@.len() ==> #[trigger] lines@[i]@ == ls[i],
            bounds@.len() == b.len(),
            forall|k: int| 0 <= k < bounds@.len() ==> #[trigger] bounds@[k] as int == b[k],
            forall|k: int| 0 <= k < b.len() ==> 1 <= #[trigger] b[k] < n,
            forall|k1: int, k2: int| 0 <= k1 < k2 < b.len() ==> b[k1] < b[k2],
            b.len() < n,
            m <= bounds@.len() + 1,
            done == pieces_upto(ls, b, m as int).map_values(
                |p: LinePiece| piece_view(ls, file_path@, language@, p),
            ),
            merged@.map_values(|x: CodeChunk| x@) == merge_chunks(done),
        decreases bounds@.len() + 1 - m,
    {
        let start: usize;
        let end: usize;
        let kind: &str;
        let name: Option<String>;
        if m == 0 {
            start = 0;
            end = if bounds.len() > 0 {
                bounds[0]
            } else {
                n
            };
            kind = "file_header";
            name = None;
        } else {
            start = bounds[m - 1];
            end = if m < bounds.len() {
                bounds[m]
            } else {
                n
            };
            kind = chunk_kind_of(lines[start].as_slice());
            name = extract_name_chars(lines[start].as_slice());
        }
        let ghost r = range_at(ls, b, m as int);
        assert(start as int == r.start && end as int == r.end && kind@ == r.kind && opt_view(name)
            == r.name);
        assert(start <= end);
        let len = end - start;
        let ghost before = done;
        let ghost pv = |p: LinePiece| piece_view(ls, file_path@, language@, p);
        if len > MAX_CHUNK_LINES {
            let sp = split_point(&lines, start, len, Ghost(ls));
            let g1 = push_piece(
                &mut merged,
                &lines,
                start,
                start + sp,
                file_path,
                language,
                kind,
                name,
                Ghost(ls),
                Ghost(done),
            );
            let g2 = push_piece(
                &mut merged,
                &lines,
                start + sp,
                end,
                file_path,
                language,
                kind,
                None,
                Ghost(ls),
                g1,
            );
            proof {
                done = g2@;
                let p1 = LinePiece { start: r.start, end: r.start + sp, kind: r.kind, name: r.name };
                let p2 = LinePiece { start: r.start + sp, end: r.end, kind: r.kind, name: None };
                assert(pieces_of_range(ls, r) == nonempty(p1) + nonempty(p2));
                assert((nonempty(p1) + nonempty(p2)).map_values(pv) =~= nonempty(p1).map_values(pv)
                    + nonempty(p2).map_values(pv));
            }
        } else {
            let g = push_piece(
                &mut merged,
                &lines,
                start,
                end,
                file_path,
                language,
                kind,
                name,
                Ghost(ls),
                Ghost(done),
            );
            proof {
                done = g@;
                assert(pieces_of_range(ls, r) == nonempty(r));
            }
        }
        proof {
            assert(pieces_upto(ls, b, m + 1) == pieces_upto(ls, b, m as int) + pieces_of_range(ls, r));
            assert((pieces_upto(ls, b, m as int) + pieces_of_range(ls, r)).map_values(pv)
                =~= pieces_upto(ls, b, m as int).map_values(pv) + pieces_of_range(ls, r).map_values(
                pv,
            ));
            assert(done =~= pieces_upto(ls, b, m + 1).map_values(pv));
        }
        m = m + 1;
    }
    merged
}


/// Pieces that cover the lines `[lo, hi)` in order, each non-empty, each
/// starting where the previous one ends.
pub open spec fn piece_tiling(ps: Seq<LinePiece>, lo: int, hi: int) -> bool {
    &&& ps.len() > 0
    &&& ps[0].start == lo
    &&& ps.last().end == hi
    &&& forall|i: int| 0 <= i < ps.len() ==> (#[trigger] ps[i]).start < ps[i].end
    &&& forall|i: int| 0 <= i < ps.len() - 1 ==> (#[trigger] ps[i + 1]).start == ps[i].end
}

/// Chunks that cover the (1-based) lines `first..=last` in order: each
/// chunk's lines follow the previous chunk's, none is empty.
pub open spec fn chunk_tiling(cs: Seq<ChunkView>, first: int, last: int) -> bool {
    &&& cs.len() > 0
    &&& cs[0].start_line == first
    &&& cs.last().end_line == last
    &&& forall|i: int| 0 <= i < cs.len() ==> (#[trigger] cs[i]).start_line <= cs[i].end_line
    &&& forall|i: int|
        0 <= i < cs.len() - 1 ==> (#[trigger] cs[i + 1]).start_line == cs[i].end_line + 1
}

proof fn lemma_piece_tiling_concat(a: Seq<LinePiece>, b: Seq<LinePiece>, lo: int, mid: int, hi: int)
    requires
        piece_tiling(a, lo, mid),
        piece_tiling(b, mid, hi),
    ensures
        piece_tiling(a + b, lo, hi),
{
    let c = a + b;
    assert forall|i: int| 0 <= i < c.len() implies (#[trigger] c[i]).start < c[i].end by {
        if i < a.len() {
            assert(c[i] == a[i]);
        } else {
            assert(c[i] == b[i - a.len()]);
        }
    }
    assert forall|i: int| 0 <= i < c.len() - 1 implies (#[trigger] c[i + 1]).start == c[i].end by {
        if i + 1 < a.len() {
            assert(c[i] == a[i] && c[i + 1] == a[i + 1]);
        } else if i + 1 == a.len() {
            assert(c[i] == a.last() && c[i + 1] == b[0]);
        } else {
            let j = i - a.len();
            assert(c[i] == b[j] && c[i + 1] == b[j + 1]);
            assert(b[j + 1].start == b[j].end);
        }
    }
    assert(c.last() == b.last());
}

proof fn lemma_first_blank_range(ls: Seq<Seq<char>>, s: int, i: int, hi: int)
    requires
        SPLIT_TARGET <= i,
    ensures
        SPLIT_TARGET <= first_blank(ls, s, i, hi),
        first_blank(ls, s, i, hi) == SPLIT_TARGET || first_blank(ls, s, i, hi) <= hi,
    decreases hi - i,
{
    if i < hi && !is_blank(ls[s + i]) {
        lemma_first_blank_range(ls, s, i + 1, hi);
    }
}

proof fn lemma_range_pieces_tile(ls: Seq<Seq<char>>, r: LinePiece)
    requires
        r.start < r.end,
    ensures
        piece_tiling(pieces_of_range(ls, r), r.start, r.end),
{
    let len = r.end - r.start;
    if len > MAX_CHUNK_LINES {
        let hi = if len < SPLIT_TARGET + 30 {
            len
        } else {
            SPLIT_TARGET + 30
        };
        lemma_first_blank_range(ls, r.start, SPLIT_TARGET as int, hi);
    }
}

proof fn lemma_ranges_tile(ls: Seq<Seq<char>>, m: int)
    requires
        ls.len() > 0,
        1 <= m <= bounds_upto(ls, ls.len() as int).len() + 1,
    ensures
        piece_tiling(
            pieces_upto(ls, bounds_upto(ls, ls.len() as int), m),
            0,
            range_at(ls, bounds_upto(ls, ls.len() as int), m - 1).end,
        ),
    decreases m,
{
    let b = bounds_upto(ls, ls.len() as int);
    lemma_bounds(ls, ls.len() as int);
    let r = range_at(ls, b, m - 1);
    assert(r.start < r.end) by {
        if m - 1 == 0 {
            if b.len() > 0 {
                assert(1 <= b[0]);
            }
        } else if m - 1 < b.len() {
            assert(b[m - 2] < b[m - 1]);
        } else {
            assert(b[m - 2] < ls.len());
        }
    }
    lemma_range_pieces_tile(ls, r);
    if m == 1 {
        assert(pieces_upto(ls, b, 0) =~= Seq::<LinePiece>::empty());
        assert(pieces_upto(ls, b, 1) =~= pieces_of_range(ls, r));
    } else {
        lemma_ranges_tile(ls, m - 1);
        assert(range_at(ls, b, m - 2).end == r.start);
        lemma_piece_tiling_concat(
            pieces_upto(ls, b, m - 1),
            pieces_of_range(ls, r),
            0,
            r.start,
            r.end,
        );
    }
}

proof fn lemma_merge_tiles(cs: Seq<ChunkView>, first: int, last: int)
    requires
        chunk_tiling(cs, first, last),
    ensures
        chunk_tiling(merge_chunks(cs), first, last),
    decreases cs.len(),
{
    let c = cs.last();
    if cs.len() == 1 {
        assert(cs.drop_last() =~= Seq::<ChunkView>::empty());
        assert(merge_chunks(cs.drop_last()) =~= Seq::<ChunkView>::empty());
    } else {
        let d = cs.drop_last();
        assert forall|i: int| 0 <= i < d.len() implies (#[trigger] d[i]).start_line <= d[i].end_line by {
            assert(d[i] == cs[i]);
        }
        assert forall|i: int| 0 <= i < d.len() - 1 implies (#[trigger] d[i + 1]).start_line
            == d[i].end_line + 1 by {
            assert(d[i] == cs[i] && d[i + 1] == cs[i + 1]);
        }
        lemma_merge_tiles(d, first, d.last().end_line);
        let m = merge_chunks(d);
        assert(c.start_line == d.last().end_line + 1) by {
            let k = cs.len() - 2;
            assert(cs[k] == d.last());
            assert(cs[k + 1] == c);
            assert(cs[k + 1].start_line == cs[k].end_line + 1);
        }
        assert(c.start_line <= c.end_line) by {
            assert(cs[cs.len() - 1] == c);
        }
        let out = merge_step(m, c);
        if m.len() > 0 && spec_lines(c.content).len() < MIN_CHUNK_LINES {
            assert forall|i: int| 0 <= i < out.len() implies (#[trigger] out[i]).start_line
                <= out[i].end_line by {
                if i < m.len() - 1 {
                    assert(out[i] == m[i]);
                }
            }
            assert forall|i: int| 0 <= i < out.len() - 1 implies (#[trigger] out[i + 1]).start_line
                == out[i].end_line + 1 by {
                assert(out[i] == m[i]);
                if i + 1 < m.len() - 1 {
                    assert(out[i + 1] == m[i + 1]);
                }
            }
        } else {
            assert forall|i: int| 0 <= i < out.len() implies (#[trigger] out[i]).start_line
                <= out[i].end_line by {
                if i < m.len() {
                    assert(out[i] == m[i]);
                }
            }
            assert forall|i: int| 0 <= i < out.len() - 1 implies (#[trigger] out[i + 1]).start_line
                == out[i].end_line + 1 by {
                assert(out[i] == m[i]);
                if i + 1 < m.len() {
                    assert(out[i + 1] == m[i + 1]);
                }
            }
        }
    }
}

/// The chunks of a file cover each of its lines exactly once, in order: the
/// first chunk starts at line 1, the last ends at the last line, and each
/// chunk starts on the line after the previous one ends. A file without
/// lines has no chunk.
pub proof fn lemma_chunks_cover_file(content: Seq<char>, fp: Seq<char>, lang: Seq<char>)
    ensures
        spec_lines(content).len() == 0 ==> spec_chunks(content, fp, lang).len() == 0,
        spec_lines(content).len() > 0 ==> chunk_tiling(
            spec_chunks(content, fp, lang),
            1,
            spec_lines(content).len() as int,
        ),
{
    let ls = spec_lines(content);
    if ls.len() > 0 {
        let b = bounds_upto(ls, ls.len() as int);
        lemma_ranges_tile(ls, b.len() + 1int);
        let ps = pieces_upto(ls, b, b.len() + 1int);
        let cs = ps.map_values(|p: LinePiece| piece_view(ls, fp, lang, p));
        assert forall|i: int| 0 <= i < cs.len() implies (#[trigger] cs[i]).start_line <= cs[i].end_line by {
            assert(ps[i].start < ps[i].end);
        }
        assert forall|i: int| 0 <= i < cs.len() - 1 implies (#[trigger] cs[i + 1]).start_line
            == cs[i].end_line + 1 by {
            assert(ps[i + 1].start == ps[i].end);
        }
        assert(cs.last() == piece_view(ls, fp, lang, ps.last()));
        lemma_merge_tiles(cs, 1, ls.len() as int);
    }
}

/// The kinds a chunk can have.
pub open spec fn chunk_kinds() -> Seq<Seq<char>> {
    seq!["file_header"@, "function"@, "struct"@, "impl"@, "enum"@, "trait"@, "block"@]
}

/// A chunk as a file of lines `ls` yields it: it carries the file's path and
/// language and a listed kind, its line numbers lie within the file, and its
/// content is its lines joined with newlines.
pub open spec fn chunk_of_file(ls: Seq<Seq<char>>, fp: Seq<char>, lang: Seq<char>, c: ChunkView) -> bool {
    &&& c.file_path == fp
    &&& c.language == lang
    &&& chunk_kinds().contains(c.kind)
    &&& 1 <= c.start_line <= c.end_line <= ls.len()
    &&& c.content == join_lines(ls.subrange(c.start_line - 1, c.end_line))
}

proof fn lemma_chunk_kind_listed(line: Seq<char>)
    ensures
        chunk_kinds().contains(chunk_kind(line)),
{
    let k = chunk_kind(line);
    let ks = chunk_kinds();
    if k == "function"@ {
        assert(ks[1] == k);
    } else if k == "struct"@ {
        assert(ks[2] == k);
    } else if k == "impl"@ {
        assert(ks[3] == k);
    } else if k == "enum"@ {
        assert(ks[4] == k);
    } else if k == "trait"@ {
        assert(ks[5] == k);
    } else {
        assert(ks[6] == k);
    }
}

proof fn lemma_tiling_lo(ps: Seq<LinePiece>, lo: int, hi: int, i: int)
    requires
        piece_tiling(ps, lo, hi),
        0 <= i < ps.len(),
    ensures
        lo <= ps[i].start,
    decreases i,
{
    if i > 0 {
        lemma_tiling_lo(ps, lo, hi, i - 1);
        assert(ps[(i - 1) + 1].start == ps[i - 1].end);
    }
}

proof fn lemma_tiling_hi(ps: Seq<LinePiece>, lo: int, hi: int, i: int)
    requires
        piece_tiling(ps, lo, hi),
        0 <= i < ps.len(),
    ensures
        ps[i].end <= hi,
    decreases ps.len() - i,
{
    if i < ps.len() - 1 {
        lemma_tiling_hi(ps, lo, hi, i + 1);
        assert(ps[i + 1].start == ps[i].end);
        assert(ps[i + 1].start < ps[i + 1].end);
    }
}

/// Every piece of a range has the range's kind; the first also its name.
proof fn lemma_range_pieces_kind(ls: Seq<Seq<char>>, r: LinePiece)
    ensures
        forall|i: int| 0 <= i < pieces_of_range(ls, r).len() ==> (#[trigger] pieces_of_range(ls, r)[i]).kind
            == r.kind,
        pieces_of_range(ls, r).len() > 0 ==> pieces_of_range(ls, r)[0].name == r.name,
{
    let len = r.end - r.start;
    if len > MAX_CHUNK_LINES {
        let hi = if len < SPLIT_TARGET + 30 {
            len
        } else {
            SPLIT_TARGET + 30
        };
        lemma_first_blank_range(ls, r.start, SPLIT_TARGET as int, hi);
    }
}

/// The pieces of the first `m` ranges have listed kinds, and the first is the
/// nameless file header.
proof fn lemma_pieces_kinds(ls: Seq<Seq<char>>, m: int)
    requires
        ls.len() > 0,
        1 <= m <= bounds_upto(ls, ls.len() as int).len() + 1,
    ensures
        forall|i: int| 0 <= i < pieces_upto(ls, bounds_upto(ls, ls.len() as int), m).len()
            ==> chunk_kinds().contains(
            (#[trigger] pieces_upto(ls, bounds_upto(ls, ls.len() as int), m)[i]).kind,
        ),
        pieces_upto(ls, bounds_upto(ls, ls.len() as int), m)[0].kind == "file_header"@,
        pieces_upto(ls, bounds_upto(ls, ls.len() as int), m)[0].name is None,
    decreases m,
{
    let b = bounds_upto(ls, ls.len() as int);
    let r = range_at(ls, b, m - 1);
    lemma_ranges_tile(ls, m);
    lemma_range_pieces_kind(ls, r);
    let rp = pieces_of_range(ls, r);
    let all = pieces_upto(ls, b, m);
    assert(chunk_kinds().contains(r.kind)) by {
        if m - 1 == 0 {
            assert(chunk_kinds()[0] == r.kind);
        } else {
            lemma_chunk_kind_listed(ls[b[m - 2]]);
        }
    }
    if m == 1 {
        assert(pieces_upto(ls, b, 0) =~= Seq::<LinePiece>::empty());
        assert(all =~= rp);
    } else {
        lemma_pieces_kinds(ls, m - 1);
        let prev = pieces_upto(ls, b, m - 1);
        lemma_ranges_tile(ls, m - 1);
        assert(all == prev + rp);
        assert(all[0] == prev[0]);
        assert forall|i: int| 0 <= i < all.len() implies chunk_kinds().contains((#[trigger] all[i]).kind) by {
            if i < prev.len() {
                assert(all[i] == prev[i]);
            } else {
                assert(all[i] == rp[i - prev.len()]);
            }
        }
    }
}

/// Merging keeps every chunk a chunk of the file, keeps the first chunk's
/// kind and name, and leaves every chunk after the first with at least
/// [`MIN_CHUNK_LINES`] lines.
proof fn lemma_merge_keeps_chunks(
    ls: Seq<Seq<char>>,
    fp: Seq<char>,
    lang: Seq<char>,
    cs: Seq<ChunkView>,
    first: int,
    last: int,
)
    requires
        chunk_tiling(cs, first, last),
        forall|i: int| 0 <= i < cs.len() ==> chunk_of_file(ls, fp, lang, #[trigger] cs[i]),
    ensures
        merge_chunks(cs).len() > 0,
        merge_chunks(cs)[0].kind == cs[0].kind,
        merge_chunks(cs)[0].name == cs[0].name,
        forall|i: int| 0 <= i < merge_chunks(cs).len() ==> chunk_of_file(ls, fp, lang, #[trigger] merge_chunks(cs)[i]),
        forall|i: int| 1 <= i < merge_chunks(cs).len() ==> spec_lines((#[trigger] merge_chunks(cs)[i]).content).len()
            >= MIN_CHUNK_LINES,
    decreases cs.len(),
{
    let c = cs.last();
    assert(chunk_of_file(ls, fp, lang, cs[cs.len() - 1]));
    if cs.len() == 1 {
        assert(cs.drop_last() =~= Seq::<ChunkView>::empty());
        assert(merge_chunks(cs.drop_last()) =~= Seq::<ChunkView>::empty());
        assert(merge_chunks(cs) =~= seq![c]);
    } else {
        let d = cs.drop_last();
        assert forall|i: int| 0 <= i < d.len() implies (#[trigger] d[i]).start_line <= d[i].end_line by {
            assert(d[i] == cs[i]);
        }
        assert forall|i: int| 0 <= i < d.len() - 1 implies (#[trigger] d[i + 1]).start_line
            == d[i].end_line + 1 by {
            assert(d[i] == cs[i] && d[i + 1] == cs[i + 1]);
        }
        assert forall|i: int| 0 <= i < d.len() implies chunk_of_file(ls, fp, lang, #[trigger] d[i]) by {
            assert(d[i] == cs[i]);
        }
        lemma_merge_keeps_chunks(ls, fp, lang, d, first, d.last().end_line);
        lemma_merge_tiles(d, first, d.last().end_line);
        let m = merge_chunks(d);
        assert(d[0] == cs[0]);
        assert(c.start_line == d.last().end_line + 1) by {
            let k = cs.len() - 2;
            assert(cs[k] == d.last());
            assert(cs[k + 1] == c);
        }
        let out = merge_step(m, c);
        assert(merge_chunks(cs) == out);
        if m.len() > 0 && spec_lines(c.content).len() < MIN_CHUNK_LINES {
            let p = m.last();
            assert(chunk_of_file(ls, fp, lang, m[m.len() - 1]));
            let merged = ChunkView { end_line: c.end_line, content: p.content + seq!['\n'] + c.content, ..p };
            let x = ls.subrange(p.start_line - 1, p.end_line);
            let y = ls.subrange(c.start_line - 1, c.end_line);
            assert(p.end_line == c.start_line - 1);
            lemma_join_concat(x, y);
            assert(x + y =~= ls.subrange(p.start_line - 1, c.end_line));
            assert(chunk_of_file(ls, fp, lang, merged));
            lemma_lines_grow(p.content, c.content);
            assert(out == m.update(m.len() - 1, merged));
            assert forall|i: int| 0 <= i < out.len() implies chunk_of_file(ls, fp, lang, #[trigger] out[i]) by {
                if i < m.len() - 1 {
                    assert(out[i] == m[i]);
                }
            }
            assert forall|i: int| 1 <= i < out.len() implies spec_lines((#[trigger] out[i]).content).len()
                >= MIN_CHUNK_LINES by {
                if i < m.len() - 1 {
                    assert(out[i] == m[i]);
                } else {
                    assert(spec_lines(m[i].content).len() >= MIN_CHUNK_LINES);
                }
            }
        } else {
            assert(out == m.push(c));
            assert forall|i: int| 0 <= i < out.len() implies chunk_of_file(ls, fp, lang, #[trigger] out[i]) by {
                if i < m.len() {
                    assert(out[i] == m[i]);
                }
            }
            assert forall|i: int| 1 <= i < out.len() implies spec_lines((#[trigger] out[i]).content).len()
                >= MIN_CHUNK_LINES by {
                if i < m.len() {
                    assert(out[i] == m[i]);
                }
            }
        }
    }
}

/// What every chunk of a file is: it carries the file's path and language
/// and a kind from [`chunk_kinds`], its lines lie within the file, and its
/// content is exactly its lines joined with newlines. The first chunk is the
/// nameless `file_header`, and every later chunk has at least
/// [`MIN_CHUNK_LINES`] lines (shorter ones are merged into the chunk before).
pub proof fn lemma_chunk_contents(content: Seq<char>, fp: Seq<char>, lang: Seq<char>)
    ensures
        forall|k: int| 0 <= k < spec_chunks(content, fp, lang).len() ==> chunk_of_file(
            spec_lines(content),
            fp,
            lang,
            #[trigger] spec_chunks(content, fp, lang)[k],
        ),
        spec_chunks(content, fp, lang).len() > 0 ==> spec_chunks(content, fp, lang)[0].kind
            == "file_header"@ && spec_chunks(content, fp, lang)[0].name is None,
        forall|k: int| 1 <= k < spec_chunks(content, fp, lang).len() ==> spec_lines(
            (#[trigger] spec_chunks(content, fp, lang)[k]).content,
        ).len() >= MIN_CHUNK_LINES,
{
    let ls = spec_lines(content);
    if ls.len() > 0 {
        let b = bounds_upto(ls, ls.len() as int);
        lemma_ranges_tile(ls, b.len() + 1int);
        lemma_pieces_kinds(ls, b.len() + 1int);
        let ps = pieces_upto(ls, b, b.len() + 1int);
        let cs = ps.map_values(|p: LinePiece| piece_view(ls, fp, lang, p));
        assert forall|i: int| 0 <= i < cs.len() implies (#[trigger] cs[i]).start_line <= cs[i].end_line by {
            assert(ps[i].start < ps[i].end);
        }
        assert forall|i: int| 0 <= i < cs.len() - 1 implies (#[trigger] cs[i + 1]).start_line
            == cs[i].end_line + 1 by {
            assert(ps[i + 1].start == ps[i].end);
        }
        assert(cs.last() == piece_view(ls, fp, lang, ps.last()));
        assert forall|i: int| 0 <= i < cs.len() implies chunk_of_file(ls, fp, lang, #[trigger] cs[i]) by {
            lemma_tiling_lo(ps, 0, ls.len() as int, i);
            lemma_tiling_hi(ps, 0, ls.len() as int, i);
            assert(chunk_kinds().contains(ps[i].kind));
        }
        lemma_merge_keeps_chunks(ls, fp, lang, cs, 1, ls.len() as int);
    }
}

} // verus!
