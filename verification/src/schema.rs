//! The short notation for tool input schemas: each key names a property,
//! `?` at the end makes it optional, and a `#` or `[]` prefix makes it a
//! number or an array of objects (a string otherwise).
use vstd::prelude::*;
use crate::config::{trim_char_end, trim_char_end_chars};
use crate::text::{chars_of, skip_chars, starts_with, starts_with_chars, string_from_chars};

verus! {

/// The JSON type of a schema property.
#[derive(Debug, Clone, Copy, PartialEq, Eq, Structural)]
pub enum FieldKind {
    /// `{"type": "string"}`
    Text,
    /// `{"type": "number"}`
    Number,
    /// `{"type": "array", "items": {"type": "object"}}`
    ObjectArray,
}

/// One property of an input schema.
#[derive(Debug)]
pub struct SchemaField {
    pub name: String,
    pub kind: FieldKind,
    pub required: bool,
}

/// The property a key stands for: optional when the key ends with `?`; the
/// name is the key without its trailing `?`s and without a leading `#`
/// (number) or `[]` (array of objects).
pub open spec fn field_of(key: Seq<char>) -> (Seq<char>, FieldKind, bool) {
    let required = !(key.len() > 0 && key.last() == '?');
    let base = trim_char_end(key, '?');
    if starts_with(base, seq!['#']) {
        (base.skip(1), FieldKind::Number, required)
    } else if starts_with(base, seq!['[', ']']) {
        (base.skip(2), FieldKind::ObjectArray, required)
    } else {
        (base, FieldKind::Text, required)
    }
}

/// How a property name is written in the notation: as itself for a required
/// string, behind `#` for a number, behind `[]` for an array of objects; a
/// `?` written after any of these makes the same property optional.
pub proof fn lemma_field_notation(name: Seq<char>)
    requires
        !(name.len() > 0 && name.last() == '?'),
    ensures
        !starts_with(name, seq!['#']) && !starts_with(name, seq!['[', ']']) ==> field_of(name) == (
            name,
            FieldKind::Text,
            true,
        ),
        field_of(seq!['#'] + name) == (name, FieldKind::Number, true),
        field_of(seq!['[', ']'] + name) == (name, FieldKind::ObjectArray, true),
        field_of(name + seq!['?']) == (field_of(name).0, field_of(name).1, false),
        field_of(seq!['#'] + name + seq!['?']) == (name, FieldKind::Number, false),
        field_of(seq!['[', ']'] + name + seq!['?']) == (name, FieldKind::ObjectArray, false),
{
    let h = seq!['#'] + name;
    let b = seq!['[', ']'] + name;
    assert(!(h.len() > 0 && h.last() == '?'));
    assert(!(b.len() > 0 && b.last() == '?'));
    assert(h.take(1) =~= seq!['#']);
    assert(h.skip(1) =~= name);
    assert(b.take(2) =~= seq!['[', ']']);
    assert(b.skip(2) =~= name);
    lemma_trim_one_mark(name);
    lemma_trim_one_mark(h);
    lemma_trim_one_mark(b);
}

/// Stripping the trailing `?`s of a key with one more `?` gives what it
/// gives for the key.
proof fn lemma_trim_one_mark(k: Seq<char>)
    ensures
        trim_char_end(k + seq!['?'], '?') == trim_char_end(k, '?'),
{
    let kq = k + seq!['?'];
    assert(kq.drop_last() =~= k);
}

pub open spec fn field_view(f: SchemaField) -> (Seq<char>, FieldKind, bool) {
    (f.name@, f.kind, f.required)
}

/// Reads one key of the schema notation (see [`field_of`]).
pub fn schema_field(key: &str) -> (r: SchemaField)
    ensures
        field_view(r) == field_of(key@),
{
    let k = chars_of(key);
    let required = !(k.len() > 0 && k[k.len() - 1] == '?');
    let base = trim_char_end_chars(k.as_slice(), '?');
    let hash = ['#'];
    let brackets = ['[', ']'];
    proof {
        assert(hash@ =~= seq!['#']);
        assert(brackets@ =~= seq!['[', ']']);
    }
    if starts_with_chars(base.as_slice(), &hash) {
        let rest = skip_chars(base.as_slice(), 1);
        SchemaField { name: string_from_chars(rest.as_slice()), kind: FieldKind::Number, required }
    } else if starts_with_chars(base.as_slice(), &brackets) {
        let rest = skip_chars(base.as_slice(), 2);
        SchemaField {
            name: string_from_chars(rest.as_slice()),
            kind: FieldKind::ObjectArray,
            required,
        }
    } else {
        SchemaField { name: string_from_chars(base.as_slice()), kind: FieldKind::Text, required }
    }
}

/// Reads every key of a schema, in order.
pub fn schema_fields(keys: &[&str]) -> (r: Vec<SchemaField>)
    ensures
        r@.len() == keys@.len(),
        forall|i: int| 0 <= i < keys@.len() ==> field_view(#[trigger] r@[i]) == field_of(keys@[i]@),
{
    let mut out: Vec<SchemaField> = Vec::new();
    let mut i: usize = 0;
    while i < keys.len()
        invariant
            i <= keys@.len(),
            out@.len() == i,
            forall|j: int| 0 <= j < i ==> field_view(#[trigger] out@[j]) == field_of(keys@[j]@),
        decreases keys@.len() - i,
    {
        out.push(schema_field(keys[i]));
        i = i + 1;
    }
    out
}

/// The names of the required properties, in key order.
pub open spec fn required_of(keys: Seq<Seq<char>>) -> Seq<Seq<char>>
    decreases keys.len(),
{
    if keys.len() == 0 {
        Seq::empty()
    } else {
        required_of(keys.drop_last()) + if field_of(keys.last()).2 {
            seq![field_of(keys.last()).0]
        } else {
            Seq::empty()
        }
    }
}

/// The schema's `required` list: the names of the keys without `?`, in
/// order.
pub fn required_names(keys: &[&str]) -> (r: Vec<String>)
    ensures
        r@.map_values(|s: String| s@) == required_of(keys@.map_values(|k: &str| k@)),
{
    let ghost ks = keys@.map_values(|k: &str| k@);
    let mut out: Vec<String> = Vec::new();
    let mut i: usize = 0;
    assert(ks.take(0) =~= Seq::<Seq<char>>::empty());
    while i < keys.len()
        invariant
            ks == keys@.map_values(|k: &str| k@),
            i <= keys@.len(),
            out@.map_values(|s: String| s@) == required_of(ks.take(i as int)),
        decreases keys@.len() - i,
    {
        let f = schema_field(keys[i]);
        proof {
            assert(ks.take(i + 1).drop_last() =~= ks.take(i as int));
            assert(ks.take(i + 1).last() == keys@[i as int]@);
        }
        if f.required {
            let ghost before = out@.map_values(|s: String| s@);
            out.push(f.name);
            assert(out@.map_values(|s: String| s@) =~= before.push(field_of(keys@[i as int]@).0));
        } else {
            assert(required_of(ks.take(i + 1)) =~= required_of(ks.take(i as int)));
        }
        i = i + 1;
    }
    assert(ks.take(keys@.len() as int) =~= ks);
    out
}

} // verus!
