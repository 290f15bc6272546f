//! The code-search request to the API: its query string, with the query and
//! project path percent-encoded.
use vstd::prelude::*;
use vstd::string::StringSliceAdditionalSpecFns;
use crate::text::{concat5, concat_str, i64_decimal, push_char, spec_int_decimal};

verus! {

/// A byte that a URL query value carries as is: the RFC 3986 unreserved
/// characters (ASCII letters and digits, `-`, `_`, `.`, `~`).
pub open spec fn unreserved(b: u8) -> bool {
    (0x30 <= b && b <= 0x39) || (0x41 <= b && b <= 0x5a) || (0x61 <= b && b <= 0x7a) || b == 0x2d
        || b == 0x5f || b == 0x2e || b == 0x7e
}

/// An uppercase hex digit.
pub open spec fn hex_upper(d: u8) -> char {
    if d < 10 {
        ((48 + d) as u32) as char
    } else {
        ((55 + d) as u32) as char
    }
}

/// A byte percent-encoded: as its character when unreserved, else `%XX`.
pub open spec fn pct_byte(b: u8) -> Seq<char> {
    if unreserved(b) {
        seq![(b as u32) as char]
    } else {
        seq!['%', hex_upper(b / 16), hex_upper(b % 16)]
    }
}

/// Bytes percent-encoded one by one.
pub open spec fn pct_encode(bytes: Seq<u8>) -> Seq<char>
    decreases bytes.len(),
{
    if bytes.len() == 0 {
        Seq::empty()
    } else {
        pct_encode(bytes.drop_last()) + pct_byte(bytes.last())
    }
}

/// A character that may appear in a percent-encoded value: an unreserved
/// character, `%`, or an uppercase hex digit.
pub open spec fn encoded_char(c: char) -> bool {
    ('0' <= c && c <= '9') || ('A' <= c && c <= 'Z') || ('a' <= c && c <= 'z') || c == '-' || c
        == '_' || c == '.' || c == '~' || c == '%'
}

/// The bytes a query value carries as they are: exactly the ASCII letters of
/// either case, the digits, and `-`, `_`, `.`, `~`.
pub proof fn lemma_unreserved_bytes(b: u8)
    ensures
        ({
            let c = (b as u32) as char;
            unreserved(b) <==> ('0' <= c && c <= '9') || ('A' <= c && c <= 'Z') || ('a' <= c
                && c <= 'z') || c == '-' || c == '_' || c == '.' || c == '~'
        }),
{
}

/// The digits of a `%XX` escape: `0`-`9` then `A`-`F`.
pub proof fn lemma_hex_upper_table()
    ensures
        hex_upper(0) == '0',
        hex_upper(1) == '1',
        hex_upper(2) == '2',
        hex_upper(3) == '3',
        hex_upper(4) == '4',
        hex_upper(5) == '5',
        hex_upper(6) == '6',
        hex_upper(7) == '7',
        hex_upper(8) == '8',
        hex_upper(9) == '9',
        hex_upper(10) == 'A',
        hex_upper(11) == 'B',
        hex_upper(12) == 'C',
        hex_upper(13) == 'D',
        hex_upper(14) == 'E',
        hex_upper(15) == 'F',
{
}

/// Percent-encoding leaves nothing that could end a query value or start a
/// new one: every character of the result is unreserved, `%`, or a hex
/// digit.
pub proof fn lemma_pct_encode_safe(bytes: Seq<u8>)
    ensures
        forall|i: int| 0 <= i < pct_encode(bytes).len() ==> encoded_char(#[trigger] pct_encode(bytes)[i]),
    decreases bytes.len(),
{
    if bytes.len() > 0 {
        lemma_pct_encode_safe(bytes.drop_last());
        let b = bytes.last();
        let pre = pct_encode(bytes.drop_last());
        let tail = pct_byte(b);
        assert(b / 16 < 16 && b % 16 < 16);
        assert forall|i: int| 0 <= i < tail.len() implies encoded_char(#[trigger] tail[i]) by {
            if unreserved(b) {
                assert(tail[i] == (b as u32) as char);
            }
        }
        assert forall|i: int| 0 <= i < pct_encode(bytes).len() implies encoded_char(
            #[trigger] pct_encode(bytes)[i],
        ) by {
            if i < pre.len() {
                assert(pct_encode(bytes)[i] == pre[i]);
            } else {
                assert(pct_encode(bytes)[i] == tail[i - pre.len()]);
            }
        }
    }
}

fn hex_digit_upper(d: u8) -> (c: char)
    requires
        d < 16,
    ensures
        c == hex_upper(d),
{
    if d < 10 {
        ((48 + d) as u8) as char
    } else {
        ((55 + d) as u8) as char
    }
}

/// Percent-encodes the UTF-8 bytes of `s` for a URL query value.
pub fn percent_encode_query(s: &str) -> (r: String)
    ensures
        r@ == pct_encode(s.spec_bytes()),
{
    let bytes = s.as_bytes();
    let mut out = String::new();
    let mut i: usize = 0;
    while i < bytes.len()
        invariant
            bytes@ == s.spec_bytes(),
            i <= bytes@.len(),
            out@ == pct_encode(bytes@.take(i as int)),
        decreases bytes@.len() - i,
    {
        let b = bytes[i];
        assert(bytes@.take(i + 1).drop_last() =~= bytes@.take(i as int));
        if (0x30 <= b && b <= 0x39) || (0x41 <= b && b <= 0x5a) || (0x61 <= b && b <= 0x7a) || b
            == 0x2d || b == 0x5f || b == 0x2e || b == 0x7e {
            push_char(&mut out, b as char);
        } else {
            push_char(&mut out, '%');
            push_char(&mut out, hex_digit_upper(b / 16));
            push_char(&mut out, hex_digit_upper(b % 16));
        }
        assert(out@ =~= pct_encode(bytes@.take(i + 1)));
        i = i + 1;
    }
    assert(bytes@.take(bytes@.len() as int) =~= bytes@);
    out
}

/// The API path of a code search: the query and the canonical project path
/// percent-encoded, and the result limit.
pub fn code_search_api_path(query: &str, project_path: &str, limit: i64) -> (r: String)
    ensures
        r@ == "/api/context/search?query="@ + pct_encode(query.spec_bytes()) + "&project_path="@
            + pct_encode(project_path.spec_bytes()) + "&limit="@ + spec_int_decimal(limit as int),
{
    let q = percent_encode_query(query);
    let p = percent_encode_query(project_path);
    let n = i64_decimal(limit);
    let head = concat5("/api/context/search?query=", q.as_str(), "&project_path=", p.as_str(), "&limit=");
    concat_str(head.as_str(), n.as_str())
}

} // verus!
