//! JSON text as `serde_json` writes it: string literals and arrays of
//! strings.
use vstd::prelude::*;
use crate::text::push_char;

verus! {

/// The hex digit of a nibble, lowercase.
pub open spec fn hex_lower(d: nat) -> char {
    if d < 10 {
        ((48 + d) as u32) as char
    } else {
        ((87 + d) as u32) as char
    }
}

/// One character as it appears inside a JSON string written by
/// `serde_json`: `"` and `\` escaped with a backslash, the control
/// characters with their short escapes or `\u00XX`, anything else as is.
pub open spec fn json_char(c: char) -> Seq<char> {
    if c == '"' {
        seq!['\\', '"']
    } else if c == '\\' {
        seq!['\\', '\\']
    } else if c == '\u{8}' {
        seq!['\\', 'b']
    } else if c == '\u{c}' {
        seq!['\\', 'f']
    } else if c == '\n' {
        seq!['\\', 'n']
    } else if c == '\r' {
        seq!['\\', 'r']
    } else if c == '\t' {
        seq!['\\', 't']
    } else if (c as u32) < 0x20 {
        seq!['\\', 'u', '0', '0', hex_lower(((c as u32) / 16) as nat), hex_lower(((c as u32) % 16) as nat)]
    } else {
        seq![c]
    }
}

/// How each character is written inside a JSON string: `"` and `\` behind a
/// backslash; backspace, form feed, newline, carriage return and tab as
/// `\b`, `\f`, `\n`, `\r`, `\t`; the other control characters below
/// U+0020 as `\u00` and two lowercase hex digits; every other character as
/// itself.
pub proof fn lemma_json_char_table(c: char)
    ensures
        json_char('"') == seq!['\\', '"'],
        json_char('\\') == seq!['\\', '\\'],
        json_char('\u{8}') == seq!['\\', 'b'],
        json_char('\u{c}') == seq!['\\', 'f'],
        json_char('\n') == seq!['\\', 'n'],
        json_char('\r') == seq!['\\', 'r'],
        json_char('\t') == seq!['\\', 't'],
        json_char('\u{0}') == seq!['\\', 'u', '0', '0', '0', '0'],
        json_char('\u{1f}') == seq!['\\', 'u', '0', '0', '1', 'f'],
        (c as u32) >= 0x20 && c != '"' && c != '\\' ==> json_char(c) == seq![c],
        (c as u32) < 0x20 && c != '\u{8}' && c != '\u{c}' && c != '\n' && c != '\r' && c
            != '\t' ==> json_char(c).len() == 6 && json_char(c).take(4) == seq![
            '\\',
            'u',
            '0',
            '0',
        ],
{
    assert(json_char('\u{0}') =~= seq!['\\', 'u', '0', '0', '0', '0']);
    assert(json_char('\u{1f}') =~= seq!['\\', 'u', '0', '0', '1', 'f']);
    assert(json_char(c).take(4) =~= json_char(c).subrange(0, 4));
    if (c as u32) < 0x20 && c != '\u{8}' && c != '\u{c}' && c != '\n' && c != '\r' && c != '\t' {
        assert(json_char(c).take(4) =~= seq!['\\', 'u', '0', '0']);
    }
}

/// The characters of `s`, each escaped as in a JSON string.
pub open spec fn json_escaped(s: Seq<char>) -> Seq<char>
    decreases s.len(),
{
    if s.len() == 0 {
        Seq::empty()
    } else {
        json_escaped(s.drop_last()) + json_char(s.last())
    }
}

/// The escape of a joined text is the join of the escapes.
pub proof fn lemma_json_escaped_concat(a: Seq<char>, b: Seq<char>)
    ensures
        json_escaped(a + b) == json_escaped(a) + json_escaped(b),
    decreases b.len(),
{
    if b.len() == 0 {
        assert(a + b =~= a);
        assert(json_escaped(a) + json_escaped(b) =~= json_escaped(a));
    } else {
        lemma_json_escaped_concat(a, b.drop_last());
        assert((a + b).drop_last() =~= a + b.drop_last());
        assert((a + b).last() == b.last());
    }
}

/// An escaped text holds no control character (nothing below U+0020), as
/// JSON requires inside a string, and every `"` in it stands right after a
/// `\`.
pub proof fn lemma_json_escaped_is_valid(s: Seq<char>)
    ensures
        forall|i: int| 0 <= i < json_escaped(s).len() ==> (#[trigger] json_escaped(s)[i] as u32) >= 0x20,
        forall|i: int|
            0 <= i < json_escaped(s).len() && #[trigger] json_escaped(s)[i] == '"' ==> i > 0
                && json_escaped(s)[i - 1] == '\\',
    decreases s.len(),
{
    if s.len() > 0 {
        let d = s.drop_last();
        let c = s.last();
        lemma_json_escaped_is_valid(d);
        let e = json_escaped(d);
        let t = json_char(c);
        assert(json_escaped(s) == e + t);
        assert forall|j: int| 0 <= j < t.len() implies (#[trigger] t[j] as u32) >= 0x20 && (t[j] == '"'
            ==> j > 0 && t[j - 1] == '\\') by {
            if (c as u32) < 0x20 && c != '\u{8}' && c != '\u{c}' && c != '\n' && c != '\r' && c
                != '\t' {
                let hi = ((c as u32) / 16) as nat;
                let lo = ((c as u32) % 16) as nat;
                assert(hi < 16 && lo < 16);
                assert(t[4] == hex_lower(hi) && t[5] == hex_lower(lo));
            }
        }
        let r = e + t;
        assert forall|i: int| 0 <= i < r.len() implies (#[trigger] r[i] as u32) >= 0x20 by {
            if i >= e.len() {
                assert(r[i] == t[i - e.len()]);
            }
        }
        assert forall|i: int| 0 <= i < r.len() && #[trigger] r[i] == '"' implies i > 0 && r[i - 1]
            == '\\' by {
            if i >= e.len() {
                assert(r[i] == t[i - e.len()]);
                assert(t[i - e.len()] == '"');
                assert(i - e.len() > 0);
                assert(r[i - 1] == t[i - 1 - e.len()]);
            } else {
                assert(r[i] == e[i]);
                assert(r[i - 1] == e[i - 1]);
            }
        }
    }
}

/// `s` as a JSON string literal, quotes included.
pub open spec fn json_string(s: Seq<char>) -> Seq<char> {
    seq!['"'] + json_escaped(s) + seq!['"']
}

fn hex_digit_lower(d: u32) -> (c: char)
    requires
        d < 16,
    ensures
        c == hex_lower(d as nat),
{
    if d < 10 {
        ((48 + d) as u8) as char
    } else {
        ((87 + d) as u8) as char
    }
}

fn push_json_char(out: &mut String, c: char)
    ensures
        final(out)@ == old(out)@ + json_char(c),
{
    if c == '"' {
        push_char(out, '\\');
        push_char(out, '"');
    } else if c == '\\' {
        push_char(out, '\\');
        push_char(out, '\\');
    } else if c == '\u{8}' {
        push_char(out, '\\');
        push_char(out, 'b');
    } else if c == '\u{c}' {
        push_char(out, '\\');
        push_char(out, 'f');
    } else if c == '\n' {
        push_char(out, '\\');
        push_char(out, 'n');
    } else if c == '\r' {
        push_char(out, '\\');
        push_char(out, 'r');
    } else if c == '\t' {
        push_char(out, '\\');
        push_char(out, 't');
    } else if (c as u32) < 0x20 {
        let v: u32 = c as u32;
        push_char(out, '\\');
        push_char(out, 'u');
        push_char(out, '0');
        push_char(out, '0');
        push_char(out, hex_digit_lower(v / 16));
        push_char(out, hex_digit_lower(v % 16));
    } else {
        push_char(out, c);
    }
    assert(final(out)@ =~= old(out)@ + json_char(c));
}

/// Writes `s` as a JSON string literal, as `serde_json` displays a string
/// value.
pub fn json_quote(s: &str) -> (r: String)
    ensures
        r@ == json_string(s@),
{
    let mut out = String::new();
    push_char(&mut out, '"');
    for c in it: s.chars()
        invariant
            it.seq() == s@,
            out@ == seq!['"'] + json_escaped(s@.take(it.index() as int)),
    {
        proof {
            assert(s@.take(it.index() + 1).drop_last() =~= s@.take(it.index() as int));
        }
        push_json_char(&mut out, c);
        proof {
            assert(out@ =~= seq!['"'] + json_escaped(s@.take(it.index() + 1)));
        }
    }
    push_char(&mut out, '"');
    assert(s@.take(s@.len() as int) =~= s@);
    out
}

/// The elements of a JSON array of strings, comma-separated.
pub open spec fn json_items(items: Seq<Seq<char>>) -> Seq<char>
    decreases items.len(),
{
    if items.len() == 0 {
        Seq::empty()
    } else if items.len() == 1 {
        json_string(items[0])
    } else {
        json_items(items.drop_last()) + seq![','] + json_string(items.last())
    }
}

/// A JSON array of strings, written compactly as `serde_json` does.
pub open spec fn json_array(items: Seq<Seq<char>>) -> Seq<char> {
    seq!['['] + json_items(items) + seq![']']
}

/// Writes the strings as a compact JSON array.
pub fn json_string_array(items: &[String]) -> (r: String)
    ensures
        r@ == json_array(items@.map_values(|s: String| s@)),
{
    let ghost views = items@.map_values(|s: String| s@);
    let mut out = String::new();
    push_char(&mut out, '[');
    let mut i: usize = 0;
    assert(views.take(0) =~= Seq::<Seq<char>>::empty());
    while i < items.len()
        invariant
            views == items@.map_values(|s: String| s@),
            i <= items@.len(),
            out@ == seq!['['] + json_items(views.take(i as int)),
        decreases items@.len() - i,
    {
        let q = json_quote(items[i].as_str());
        proof {
            assert(views.take(i + 1).drop_last() =~= views.take(i as int));
            assert(views.take(i + 1).last() == items@[i as int]@);
        }
        if i > 0 {
            push_char(&mut out, ',');
        }
        let ghost before = out@;
        let mut k: usize = 0;
        let qc = crate::text::chars_of(q.as_str());
        while k < qc.len()
            invariant
                qc@ == q@,
                k <= qc@.len(),
                out@ == before + qc@.take(k as int),
            decreases qc@.len() - k,
        {
            push_char(&mut out, qc[k]);
            assert(qc@.take(k + 1) =~= qc@.take(k as int).push(qc@[k as int]));
            k = k + 1;
        }
        assert(qc@.take(qc@.len() as int) =~= qc@);
        proof {
            if i == 0 {
                assert(views.take(1) =~= seq![views[0]]);
                assert(out@ =~= seq!['['] + json_items(views.take(1)));
            } else {
                assert(out@ =~= seq!['['] + json_items(views.take(i + 1)));
            }
        }
        i = i + 1;
    }
    assert(views.take(items@.len() as int) =~= views);
    push_char(&mut out, ']');
    out
}

} // verus!
