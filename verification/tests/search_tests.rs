use masday_mcp::search::{code_search_api_path, percent_encode_query};
use percent_encoding::{percent_encode, AsciiSet, NON_ALPHANUMERIC};

#[test]
fn unreserved_characters_pass_through() {
    assert_eq!(percent_encode_query("Az09-_.~"), "Az09-_.~");
}

#[test]
fn everything_else_is_percent_encoded() {
    assert_eq!(percent_encode_query("a b&c#d?e/f"), "a%20b%26c%23d%3Fe%2Ff");
    assert_eq!(percent_encode_query("é"), "%C3%A9");
}

#[test]
fn api_path_carries_query_path_and_limit() {
    assert_eq!(
        code_search_api_path("state machine", "/home/u/proj", 20),
        "/api/context/search?query=state%20machine&project_path=%2Fhome%2Fu%2Fproj&limit=20"
    );
}

#[test]
fn encoding_agrees_with_the_percent_encoding_crate() {
    let set: &'static AsciiSet =
        Box::leak(Box::new(NON_ALPHANUMERIC.remove(b'-').remove(b'_').remove(b'.').remove(b'~')));
    for s in ["x y", "ä/ö?&=#%+", "~tilde_under-dash.dot"] {
        assert_eq!(percent_encode_query(s), percent_encode(s.as_bytes(), set).to_string());
    }
}
