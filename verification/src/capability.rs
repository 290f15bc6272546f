//! The capability registry file: where it is, entries kept by name (replaced
//! in place or appended), and the text it is written as.
use vstd::prelude::*;
use crate::text::{push_char, str_eq};

verus! {

/// A registry entry together with its `name` field, when that field is a
/// string.
#[derive(Debug)]
pub struct Named<T> {
    pub name: Option<String>,
    pub item: T,
}

/// Whether an entry carries the given name.
pub open spec fn named<T>(e: Named<T>, name: Seq<char>) -> bool {
    e.name is Some && e.name.unwrap()@ == name
}

/// The position of the first entry with the given name, or `-1`.
pub open spec fn first_named<T>(entries: Seq<Named<T>>, name: Seq<char>) -> int
    decreases entries.len(),
{
    if entries.len() == 0 {
        -1
    } else if first_named(entries.drop_last(), name) >= 0 {
        first_named(entries.drop_last(), name)
    } else if named(entries.last(), name) {
        entries.len() - 1
    } else {
        -1
    }
}

/// The entries after an upsert: the first entry with the name replaced in
/// its place, or the new entry appended when none has the name.
pub open spec fn upserted<T>(entries: Seq<Named<T>>, name: Seq<char>, new_entry: Named<T>) -> Seq<
    Named<T>,
> {
    let p = first_named(entries, name);
    if p >= 0 {
        entries.update(p, new_entry)
    } else {
        entries.push(new_entry)
    }
}

pub proof fn lemma_first_named<T>(entries: Seq<Named<T>>, name: Seq<char>)
    ensures
        -1 <= first_named(entries, name) < entries.len(),
        first_named(entries, name) >= 0 ==> named(entries[first_named(entries, name)], name),
        forall|i: int|
            0 <= i < entries.len() && (first_named(entries, name) < 0 || i < first_named(
                entries,
                name,
            )) ==> !named(#[trigger] entries[i], name),
    decreases entries.len(),
{
    if entries.len() > 0 {
        let d = entries.drop_last();
        lemma_first_named(d, name);
        assert forall|i: int|
            0 <= i < entries.len() && (first_named(entries, name) < 0 || i < first_named(
                entries,
                name,
            )) implies !named(#[trigger] entries[i], name) by {
            if i < entries.len() - 1 {
                assert(entries[i] == d[i]);
            }
        }
        if first_named(d, name) >= 0 {
            assert(entries[first_named(d, name)] == d[first_named(d, name)]);
        }
    }
}

/// Upserts an entry by name: replaces the first entry with that name, in its
/// position, or appends the entry. Every other entry keeps its place.
pub fn upsert_entry<T>(entries: Vec<Named<T>>, name: &str, new_entry: Named<T>) -> (r: Vec<Named<T>>)
    ensures
        r@ == upserted(entries@, name@, new_entry),
{
    let mut v = entries;
    let ghost s = v@;
    proof {
        lemma_first_named(s, name@);
    }
    let mut i: usize = 0;
    while i < v.len()
        invariant
            v@ == s,
            s == entries@,
            i <= s.len(),
            -1 <= first_named(s, name@) < s.len(),
            first_named(s, name@) >= 0 ==> named(s[first_named(s, name@)], name@),
            forall|j: int|
                0 <= j < s.len() && (first_named(s, name@) < 0 || j < first_named(s, name@))
                    ==> !named(#[trigger] s[j], name@),
            forall|j: int| 0 <= j < i ==> !named(#[trigger] s[j], name@),
        decreases s.len() - i,
    {
        let hit = match &v[i].name {
            Some(n) => str_eq(n.as_str(), name),
            None => false,
        };
        if hit {
            assert(named(s[i as int], name@));
            assert(first_named(s, name@) == i as int) by {
                if first_named(s, name@) < 0 || (i as int) < first_named(s, name@) {
                    assert(!named(s[i as int], name@));
                }
            }
            v.set(i, new_entry);
            return v;
        }
        i = i + 1;
    }
    assert(first_named(s, name@) < 0) by {
        if first_named(s, name@) >= 0 {
            assert(!named(s[first_named(s, name@)], name@));
        }
    }
    v.push(new_entry);
    v
}

/// An upsert never loses an entry and adds at most one: the length stays
/// when the name was present, and grows by one when it was not.
pub proof fn lemma_upsert_length<T>(entries: Seq<Named<T>>, name: Seq<char>, new_entry: Named<T>)
    ensures
        upserted(entries, name, new_entry).len() == if first_named(entries, name) >= 0 {
            entries.len()
        } else {
            entries.len() + 1
        },
{
    lemma_first_named(entries, name);
}

/// An upsert leaves every entry but the replaced one where it was.
pub proof fn lemma_upsert_preserves_others<T>(
    entries: Seq<Named<T>>,
    name: Seq<char>,
    new_entry: Named<T>,
    i: int,
)
    requires
        0 <= i < entries.len(),
        i != first_named(entries, name),
    ensures
        upserted(entries, name, new_entry)[i] == entries[i],
{
    lemma_first_named(entries, name);
}

/// Upserting the same entry twice is the same as upserting it once, when the
/// entry carries the name it is upserted under.
pub proof fn lemma_upsert_idempotent<T>(entries: Seq<Named<T>>, name: Seq<char>, new_entry: Named<T>)
    requires
        named(new_entry, name),
    ensures
        upserted(upserted(entries, name, new_entry), name, new_entry) == upserted(
            entries,
            name,
            new_entry,
        ),
{
    let once = upserted(entries, name, new_entry);
    lemma_first_named(entries, name);
    lemma_first_named(once, name);
    let p = first_named(entries, name);
    if p >= 0 {
        assert(first_named(once, name) == p) by {
            let q = first_named(once, name);
            if q < 0 || p < q {
                assert(!named(once[p], name));
            }
            if 0 <= q < p {
                assert(once[q] == entries[q]);
            }
        }
        assert(once.update(p, new_entry) =~= once);
    } else {
        let n = entries.len() as int;
        assert(first_named(once, name) == n) by {
            let q = first_named(once, name);
            if q < 0 || n < q {
                assert(!named(once[n], name));
            }
            if 0 <= q < n {
                assert(once[q] == entries[q]);
            }
        }
        assert(once.update(n, new_entry) =~= once);
    }
}

/// Which registry file an entry is written to.
#[derive(Debug, PartialEq, Eq, Structural)]
pub enum RegistryFile {
    /// The assistant's registry in the home directory.
    Global,
    /// `~/.masday/registry.json`.
    MasdayHome,
    /// The project's own registry.
    Project,
}

/// The first registry file that exists among the global one and the
/// masday home's, else the project's.
pub fn registry_file(global_exists: bool, masday_exists: bool) -> (r: RegistryFile)
    ensures
        r == if global_exists {
            RegistryFile::Global
        } else if masday_exists {
            RegistryFile::MasdayHome
        } else {
            RegistryFile::Project
        },
{
    if global_exists {
        RegistryFile::Global
    } else if masday_exists {
        RegistryFile::MasdayHome
    } else {
        RegistryFile::Project
    }
}

/// `s` with each run of four spaces, from the left and without overlap,
/// made two (`str::replace("    ", "  ")`).
pub open spec fn halve_indent(s: Seq<char>) -> Seq<char>
    decreases s.len(),
{
    if s.len() >= 4 && s[0] == ' ' && s[1] == ' ' && s[2] == ' ' && s[3] == ' ' {
        seq![' ', ' '] + halve_indent(s.skip(4))
    } else if s.len() == 0 {
        Seq::empty()
    } else {
        seq![s[0]] + halve_indent(s.skip(1))
    }
}

/// The text a registry is written as: its pretty-printed JSON with each four
/// spaces made two, and a final newline.
pub fn registry_file_text(pretty: &str) -> (r: String)
    ensures
        r@ == halve_indent(pretty@) + seq!['\n'],
{
    let cs = crate::text::chars_of(pretty);
    let mut out = String::new();
    let mut i: usize = 0;
    assert(cs@.skip(0) =~= cs@);
    assert(out@ + halve_indent(cs@.skip(0)) =~= halve_indent(cs@));
    while i < cs.len()
        invariant
            cs@ == pretty@,
            i <= cs@.len(),
            out@ + halve_indent(cs@.skip(i as int)) == halve_indent(cs@),
        decreases cs@.len() - i,
    {
        let ghost rest = cs@.skip(i as int);
        if cs.len() - i >= 4 && cs[i] == ' ' && cs[i + 1] == ' ' && cs[i + 2] == ' ' && cs[i + 3] == ' ' {
            proof {
                assert(rest[0] == ' ' && rest[1] == ' ' && rest[2] == ' ' && rest[3] == ' ');
                assert(rest.skip(4) =~= cs@.skip(i + 4));
            }
            push_char(&mut out, ' ');
            push_char(&mut out, ' ');
            i = i + 4;
        } else {
            proof {
                assert(rest.len() > 0);
                assert(rest.skip(1) =~= cs@.skip(i + 1));
                assert(!(rest.len() >= 4 && rest[0] == ' ' && rest[1] == ' ' && rest[2] == ' ' && rest[3] == ' '));
            }
            push_char(&mut out, cs[i]);
            i = i + 1;
        }
    }
    proof {
        assert(cs@.skip(i as int) =~= Seq::<char>::empty());
    }
    push_char(&mut out, '\n');
    out
}

} // verus!
