//! The tool registry: tool definitions and their handlers, keyed by tool
//! name and listed in name order.
use vstd::prelude::*;
use crate::text::{chars_of, str_eq};
use crate::text::concat_str;

verus! {

/// A JSON value, carried through the registry as the tool's input schema.
#[verifier::external_type_specification]
#[verifier::external_body]
pub struct ExJsonValue(serde_json::Value);

/// Copies a JSON value with `<serde_json::Value as Clone>::clone`, which
/// `derive(Clone)` writes for the enum: the copy is the same value.
#[verifier::external_body]
fn copy_schema(v: &serde_json::Value) -> (r: serde_json::Value)
    ensures
        r == *v,
{
    v.clone()
}

/// A tool's definition: its name, description and JSON input schema.
pub struct ToolDefinition {
    pub name: String,
    pub description: String,
    pub input_schema: serde_json::Value,
}

impl ToolDefinition {
    /// A copy of the definition: the same name, description and schema.
    pub fn duplicate(&self) -> (r: ToolDefinition)
        ensures
            r.name@ == self.name@,
            r.description@ == self.description@,
            r.input_schema == self.input_schema,
    {
        ToolDefinition {
            name: self.name.clone(),
            description: self.description.clone(),
            input_schema: copy_schema(&self.input_schema),
        }
    }
}

/// Strict lexicographic order of character sequences by code point, the
/// order `String`'s `Ord` gives (UTF-8 byte order is code point order).
pub open spec fn lex_lt(a: Seq<char>, b: Seq<char>) -> bool
    decreases a.len(),
{
    if a.len() == 0 {
        b.len() > 0
    } else if b.len() == 0 {
        false
    } else if a[0] != b[0] {
        a[0] < b[0]
    } else {
        lex_lt(a.drop_first(), b.drop_first())
    }
}

pub proof fn lemma_lex_irreflexive(a: Seq<char>)
    ensures
        !lex_lt(a, a),
    decreases a.len(),
{
    if a.len() > 0 {
        lemma_lex_irreflexive(a.drop_first());
    }
}

pub proof fn lemma_lex_transitive(a: Seq<char>, b: Seq<char>, c: Seq<char>)
    requires
        lex_lt(a, b),
        lex_lt(b, c),
    ensures
        lex_lt(a, c),
    decreases a.len(),
{
    if a.len() > 0 && b.len() > 0 && c.len() > 0 {
        if a[0] == b[0] && b[0] == c[0] {
            lemma_lex_transitive(a.drop_first(), b.drop_first(), c.drop_first());
        }
    }
}

pub proof fn lemma_lex_total(a: Seq<char>, b: Seq<char>)
    requires
        a != b,
    ensures
        lex_lt(a, b) || lex_lt(b, a),
    decreases a.len(),
{
    if a.len() == 0 {
        assert(b.len() > 0) by {
            if b.len() == 0 {
                assert(a =~= b);
            }
        }
    } else if b.len() > 0 && a[0] == b[0] {
        if a.drop_first() == b.drop_first() {
            assert(a =~= seq![a[0]] + a.drop_first());
            assert(b =~= seq![b[0]] + b.drop_first());
        }
        lemma_lex_total(a.drop_first(), b.drop_first());
    }
}

/// Whether `a` sorts strictly before `b`.
pub fn name_lt(a: &str, b: &str) -> (r: bool)
    ensures
        r == lex_lt(a@, b@),
{
    let va = chars_of(a);
    let vb = chars_of(b);
    let mut i: usize = 0;
    assert(a@.skip(0) =~= a@ && b@.skip(0) =~= b@);
    while i < va.len() && i < vb.len() && va[i] == vb[i]
        invariant
            va@ == a@,
            vb@ == b@,
            i <= va@.len(),
            i <= vb@.len(),
            lex_lt(a@, b@) == lex_lt(a@.skip(i as int), b@.skip(i as int)),
        decreases va@.len() - i,
    {
        assert(a@.skip(i as int).drop_first() =~= a@.skip(i + 1));
        assert(b@.skip(i as int).drop_first() =~= b@.skip(i + 1));
        i = i + 1;
    }
    if i == va.len() {
        i < vb.len()
    } else if i == vb.len() {
        false
    } else {
        va[i] < vb[i]
    }
}

/// The name of a registered entry.
pub open spec fn entry_name<H>(e: (ToolDefinition, H)) -> Seq<char> {
    e.0.name@
}

/// Entries in strictly increasing name order (so no name occurs twice).
pub open spec fn sorted_entries<H>(s: Seq<(ToolDefinition, H)>) -> bool {
    forall|i: int, j: int|
        0 <= i < j < s.len() ==> lex_lt(#[trigger] entry_name(s[i]), #[trigger] entry_name(s[j]))
}

/// The entries as a map from tool name to entry.
pub open spec fn entries_map<H>(s: Seq<(ToolDefinition, H)>) -> Map<Seq<char>, (ToolDefinition, H)>
    decreases s.len(),
{
    if s.len() == 0 {
        Map::empty()
    } else {
        entries_map(s.drop_last()).insert(entry_name(s.last()), s.last())
    }
}

pub proof fn lemma_entries_map_dom<H>(s: Seq<(ToolDefinition, H)>, k: Seq<char>)
    ensures
        entries_map(s).dom().contains(k) <==> exists|i: int|
            0 <= i < s.len() && entry_name(#[trigger] s[i]) == k,
    decreases s.len(),
{
    if s.len() > 0 {
        lemma_entries_map_dom(s.drop_last(), k);
        if entries_map(s).dom().contains(k) {
            if k == entry_name(s.last()) {
                assert(entry_name(s[s.len() - 1]) == k);
            } else {
                let i = choose|i: int|
                    0 <= i < s.drop_last().len() && entry_name(#[trigger] s.drop_last()[i]) == k;
                assert(s[i] == s.drop_last()[i]);
            }
        }
        if exists|i: int| 0 <= i < s.len() && entry_name(#[trigger] s[i]) == k {
            let i = choose|i: int| 0 <= i < s.len() && entry_name(#[trigger] s[i]) == k;
            if i < s.len() - 1 {
                assert(s.drop_last()[i] == s[i]);
            }
        }
    }
}

pub proof fn lemma_sorted_prefix<H>(s: Seq<(ToolDefinition, H)>)
    requires
        sorted_entries(s),
        s.len() > 0,
    ensures
        sorted_entries(s.drop_last()),
        forall|i: int| 0 <= i < s.len() - 1 ==> entry_name(#[trigger] s[i]) != entry_name(s.last()),
{
    assert forall|i: int, j: int| 0 <= i < j < s.drop_last().len() implies lex_lt(
        #[trigger] entry_name(s.drop_last()[i]),
        #[trigger] entry_name(s.drop_last()[j]),
    ) by {
        assert(s.drop_last()[i] == s[i] && s.drop_last()[j] == s[j]);
        assert(lex_lt(entry_name(s[i]), entry_name(s[j])));
    }
    assert forall|i: int| 0 <= i < s.len() - 1 implies entry_name(#[trigger] s[i]) != entry_name(
        s.last(),
    ) by {
        assert(lex_lt(entry_name(s[i]), entry_name(s[s.len() - 1])));
        lemma_lex_irreflexive(entry_name(s[i]));
    }
}

pub proof fn lemma_entries_map_value<H>(s: Seq<(ToolDefinition, H)>, i: int)
    requires
        sorted_entries(s),
        0 <= i < s.len(),
    ensures
        entries_map(s)[entry_name(s[i])] == s[i],
    decreases s.len(),
{
    if i < s.len() - 1 {
        lemma_sorted_prefix(s);
        lemma_entries_map_value(s.drop_last(), i);
        assert(s.drop_last()[i] == s[i]);
    }
}

pub proof fn lemma_entries_map_len<H>(s: Seq<(ToolDefinition, H)>)
    requires
        sorted_entries(s),
    ensures
        entries_map(s).dom().finite(),
        entries_map(s).dom().len() == s.len(),
    decreases s.len(),
{
    if s.len() > 0 {
        lemma_sorted_prefix(s);
        lemma_entries_map_len(s.drop_last());
        lemma_entries_map_dom(s.drop_last(), entry_name(s.last()));
        if entries_map(s.drop_last()).dom().contains(entry_name(s.last())) {
            let i = choose|i: int|
                0 <= i < s.drop_last().len() && entry_name(#[trigger] s.drop_last()[i])
                    == entry_name(s.last());
            assert(s.drop_last()[i] == s[i]);
        }
    }
}

/// The registry: tool definitions with their handlers, one per name.
pub struct ToolRegistry<H> {
    tools: Vec<(ToolDefinition, H)>,
}

impl<H> ToolRegistry<H> {
    #[verifier::type_invariant]
    spec fn well_formed(self) -> bool {
        sorted_entries(self.tools@)
    }

    /// The registered entries, in name order.
    pub closed spec fn entries(&self) -> Seq<(ToolDefinition, H)> {
        self.tools@
    }
}

impl<H> View for ToolRegistry<H> {
    type V = Map<Seq<char>, (ToolDefinition, H)>;

    /// The registered tools by name.
    closed spec fn view(&self) -> Map<Seq<char>, (ToolDefinition, H)> {
        entries_map(self.tools@)
    }
}

impl<H> ToolRegistry<H> {
    /// An empty registry.
    pub fn new() -> (r: ToolRegistry<H>)
        ensures
            r@ == Map::<Seq<char>, (ToolDefinition, H)>::empty(),
    {
        ToolRegistry { tools: Vec::new() }
    }

    /// Registers a tool, replacing any tool of the same name.
    pub fn register(&mut self, definition: ToolDefinition, handler: H)
        ensures
            final(self)@ == old(self)@.insert(definition.name@, (definition, handler)),
    {
        proof {
            use_type_invariant(&*self);
        }
        let mut tools: Vec<(ToolDefinition, H)> = Vec::new();
        std::mem::swap(&mut tools, &mut self.tools);
        let ghost s = tools@;
        let ghost k = definition.name@;
        let mut p: usize = 0;
        while p < tools.len() && name_lt(tools[p].0.name.as_str(), definition.name.as_str())
            invariant
                tools@ == s,
                sorted_entries(s),
                k == definition.name@,
                p <= s.len(),
                forall|j: int| 0 <= j < p ==> lex_lt(entry_name(#[trigger] s[j]), k),
            decreases s.len() - p,
        {
            p = p + 1;
        }
        let ghost e = (definition, handler);
        let same = p < tools.len() && str_eq(tools[p].0.name.as_str(), definition.name.as_str());
        if same {
            tools[p] = (definition, handler);
        } else {
            tools.insert(p, (definition, handler));
        }
        proof {
            let t = tools@;
            assert(entry_name(e) == k);
            if !same && p < s.len() {
                lemma_lex_total(entry_name(s[p as int]), k);
            }
            // every entry before `p` sorts below `k`, every later one above
            assert forall|i: int, j: int| 0 <= i < j < t.len() implies lex_lt(
                #[trigger] entry_name(t[i]),
                #[trigger] entry_name(t[j]),
            ) by {
                if same {
                    if i == p {
                        assert(entry_name(t[i]) == entry_name(s[i]));
                    }
                    if j == p {
                        assert(entry_name(t[j]) == entry_name(s[j]));
                    }
                    assert(lex_lt(entry_name(s[i]), entry_name(s[j])));
                } else {
                    if j < p {
                        assert(lex_lt(entry_name(s[i]), entry_name(s[j])));
                    } else if j == p {
                        assert(t[i] == s[i]);
                    } else if i == p {
                        assert(t[j] == s[j - 1]);
                        if j - 1 > p {
                            assert(lex_lt(entry_name(s[p as int]), entry_name(s[j - 1])));
                            lemma_lex_transitive(k, entry_name(s[p as int]), entry_name(s[j - 1]));
                        }
                    } else if i < p {
                        assert(t[i] == s[i] && t[j] == s[j - 1]);
                        if j - 1 == i {
                        } else {
                            assert(lex_lt(entry_name(s[i]), entry_name(s[j - 1])));
                        }
                        if j - 1 >= p {
                            if j - 1 > p {
                                assert(lex_lt(entry_name(s[p as int]), entry_name(s[j - 1])));
                                lemma_lex_transitive(k, entry_name(s[p as int]), entry_name(s[j - 1]));
                            }
                            lemma_lex_transitive(entry_name(s[i]), k, entry_name(s[j - 1]));
                        }
                    } else {
                        assert(t[i] == s[i - 1] && t[j] == s[j - 1]);
                        assert(lex_lt(entry_name(s[i - 1]), entry_name(s[j - 1])));
                    }
                }
            }
            assert(sorted_entries(t));
            // the map view gains (or replaces) the entry for `k` and keeps the others
            let m = entries_map(s).insert(k, e);
            assert forall|n: Seq<char>| #[trigger] entries_map(t).dom().contains(n) <==> m.dom().contains(n) by {
                lemma_entries_map_dom(t, n);
                lemma_entries_map_dom(s, n);
                if exists|i: int| 0 <= i < s.len() && entry_name(#[trigger] s[i]) == n {
                    let i = choose|i: int| 0 <= i < s.len() && entry_name(#[trigger] s[i]) == n;
                    if same {
                        assert(entry_name(t[i]) == n);
                    } else if i < p {
                        assert(t[i] == s[i]);
                    } else {
                        assert(t[i + 1] == s[i]);
                    }
                }
                if n == k {
                    assert(entry_name(t[p as int]) == n);
                }
                if exists|i: int| 0 <= i < t.len() && entry_name(#[trigger] t[i]) == n {
                    let i = choose|i: int| 0 <= i < t.len() && entry_name(#[trigger] t[i]) == n;
                    if n != k {
                        if same {
                            assert(t[i] == s[i]);
                        } else if i < p {
                            assert(t[i] == s[i]);
                        } else {
                            assert(t[i] == s[i - 1]);
                        }
                    }
                }
            }
            assert forall|n: Seq<char>| #[trigger] m.dom().contains(n) implies entries_map(t)[n] == m[n] by {
                if n == k {
                    lemma_entries_map_value(t, p as int);
                } else {
                    lemma_entries_map_dom(s, n);
                    let i = choose|i: int| 0 <= i < s.len() && entry_name(#[trigger] s[i]) == n;
                    lemma_entries_map_value(s, i);
                    if same || i < p {
                        assert(t[i] == s[i]);
                        lemma_entries_map_value(t, i);
                    } else {
                        assert(t[i + 1] == s[i]);
                        lemma_entries_map_value(t, i + 1);
                    }
                }
            }
            assert(entries_map(t) =~= m);
        }
        self.tools = tools;
    }

    /// The definitions of all registered tools, in name order.
    pub fn list_tools(&self) -> (r: Vec<ToolDefinition>)
        ensures
            self@.dom().finite(),
            r@.len() == self@.dom().len(),
            forall|name: Seq<char>| #[trigger] self@.dom().contains(name) ==> exists|i: int|
                0 <= i < r@.len() && r@[i].name@ == name,
            forall|i: int, j: int|
                0 <= i < j < r@.len() ==> lex_lt(#[trigger] r@[i].name@, #[trigger] r@[j].name@),
            forall|i: int|
                0 <= i < r@.len() ==> #[trigger] self@.dom().contains(r@[i].name@)
                    && self@[r@[i].name@].0.description@ == r@[i].description@
                    && self@[r@[i].name@].0.input_schema == r@[i].input_schema,
    {
        proof {
            use_type_invariant(self);
            lemma_entries_map_len(self.tools@);
        }
        let mut out: Vec<ToolDefinition> = Vec::new();
        let mut i: usize = 0;
        while i < self.tools.len()
            invariant
                sorted_entries(self.tools@),
                i <= self.tools@.len(),
                out@.len() == i,
                forall|j: int| 0 <= j < i ==> (#[trigger] out@[j]).name@ == entry_name(self.tools@[j])
                    && out@[j].description@ == self.tools@[j].0.description@
                    && out@[j].input_schema == self.tools@[j].0.input_schema,
            decreases self.tools@.len() - i,
        {
            out.push(self.tools[i].0.duplicate());
            i = i + 1;
        }
        proof {
            let s = self.tools@;
            assert forall|a: int, b: int| 0 <= a < b < out@.len() implies lex_lt(
                #[trigger] out@[a].name@,
                #[trigger] out@[b].name@,
            ) by {
                assert(lex_lt(entry_name(s[a]), entry_name(s[b])));
            }
            assert forall|a: int| 0 <= a < out@.len() implies #[trigger] self@.dom().contains(
                out@[a].name@,
            ) && self@[out@[a].name@].0.description@ == out@[a].description@
                && self@[out@[a].name@].0.input_schema == out@[a].input_schema by {
                lemma_entries_map_dom(s, entry_name(s[a]));
                lemma_entries_map_value(s, a);
            }
            assert forall|name: Seq<char>| #[trigger] self@.dom().contains(name) implies exists|i: int|
                0 <= i < out@.len() && out@[i].name@ == name by {
                lemma_entries_map_dom(s, name);
                let j = choose|j: int| 0 <= j < s.len() && entry_name(#[trigger] s[j]) == name;
                assert(out@[j].name@ == name);
            }
        }
        out
    }

    fn position_of(&self, name: &str) -> (r: Option<usize>)
        ensures
            match r {
                Some(i) => i < self.tools@.len() && entry_name(self.tools@[i as int]) == name@,
                None => !self@.dom().contains(name@),
            },
    {
        let mut i: usize = 0;
        while i < self.tools.len()
            invariant
                i <= self.tools@.len(),
                forall|j: int| 0 <= j < i ==> entry_name(#[trigger] self.tools@[j]) != name@,
            decreases self.tools@.len() - i,
        {
            if str_eq(self.tools[i].0.name.as_str(), name) {
                return Some(i);
            }
            i = i + 1;
        }
        proof {
            lemma_entries_map_dom(self.tools@, name@);
        }
        None
    }

    /// Whether a tool of this name is registered.
    pub fn has_tool(&self, name: &str) -> (r: bool)
        ensures
            r == self@.dom().contains(name@),
    {
        proof {
            lemma_entries_map_dom(self.tools@, name@);
        }
        match self.position_of(name) {
            Some(i) => {
                assert(entry_name(self.tools@[i as int]) == name@);
                true
            },
            None => false,
        }
    }

    /// The number of registered tools.
    pub fn count(&self) -> (r: usize)
        ensures
            self@.dom().finite(),
            r == self@.dom().len(),
    {
        proof {
            use_type_invariant(self);
            lemma_entries_map_len(self.tools@);
        }
        self.tools.len()
    }

    /// The handler of the named tool, or the error a call of an unknown tool
    /// gets: `Tool not found: <name>`.
    pub fn handler_for(&self, name: &str) -> (r: Result<&H, String>)
        ensures
            match r {
                Ok(h) => self@.dom().contains(name@) && *h == self@[name@].1,
                Err(e) => !self@.dom().contains(name@) && e@ == "Tool not found: "@ + name@,
            },
    {
        proof {
            use_type_invariant(self);
        }
        match self.position_of(name) {
            Some(i) => {
                proof {
                    lemma_entries_map_dom(self.tools@, name@);
                    lemma_entries_map_value(self.tools@, i as int);
                }
                Ok(&self.tools[i].1)
            },
            None => Err(concat_str("Tool not found: ", name)),
        }
    }
}

/// Registering a tool makes it known, under its name, with the handler
/// given, whatever was registered before.
pub proof fn lemma_register_then_lookup<H>(
    m: Map<Seq<char>, (ToolDefinition, H)>,
    definition: ToolDefinition,
    handler: H,
)
    ensures
        m.insert(definition.name@, (definition, handler)).dom().contains(definition.name@),
        m.insert(definition.name@, (definition, handler))[definition.name@] == (definition, handler),
{
}

/// Registering a name already present keeps the number of tools; a new name
/// adds one.
pub proof fn lemma_register_count<H>(
    m: Map<Seq<char>, (ToolDefinition, H)>,
    definition: ToolDefinition,
    handler: H,
)
    requires
        m.dom().finite(),
    ensures
        m.insert(definition.name@, (definition, handler)).dom().len() == if m.dom().contains(
            definition.name@,
        ) {
            m.dom().len()
        } else {
            m.dom().len() + 1
        },
{
    if m.dom().contains(definition.name@) {
        assert(m.insert(definition.name@, (definition, handler)).dom() =~= m.dom());
    }
}

} // verus!
