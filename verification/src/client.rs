//! Identifier checks for API paths, the API settings that are fixed once
//! at startup, and the texts of API requests and of their failures.
use vstd::prelude::*;

verus! {

/// An ASCII letter or digit.
pub open spec fn is_ascii_alnum(c: char) -> bool {
    ('0' <= c && c <= '9') || ('a' <= c && c <= 'z') || ('A' <= c && c <= 'Z')
}

/// Whether `c` is an ASCII letter or digit (`char::is_ascii_alphanumeric`).
pub fn ascii_alnum(c: char) -> (r: bool)
    ensures
        r == is_ascii_alnum(c),
{
    ('0' <= c && c <= '9') || ('a' <= c && c <= 'z') || ('A' <= c && c <= 'Z')
}

/// A character allowed in an id placed in a URL path segment.
pub open spec fn id_char(c: char) -> bool {
    is_ascii_alnum(c) || c == '-' || c == '_'
}

/// An id that is safe as a URL path segment: not empty, and made only of
/// ASCII letters, digits, `-` and `_`. Every character that could change
/// the path (`/`, `\`, `.`, `?`, `#`, `&`, a space, NUL) is outside that
/// set.
pub open spec fn valid_id(id: Seq<char>) -> bool {
    id.len() > 0 && forall|i: int| 0 <= i < id.len() ==> id_char(#[trigger] id[i])
}

/// Validates an id for use in a URL path segment: returns it unchanged when
/// it is [`valid_id`], and `None` otherwise.
pub fn sanitize_id(id: &str) -> (r: Option<&str>)
    ensures
        r == (if valid_id(id@) { Some(id) } else { None::<&str> }),
{
    let mut ok = !id.is_empty();
    for c in it: id.chars()
        invariant
            it.seq() == id@,
            ok == (id@.len() > 0 && forall|j: int|
                0 <= j < it.index() ==> id_char(#[trigger] id@[j])),
    {
        if !(ascii_alnum(c) || c == '-' || c == '_') {
            ok = false;
        }
    }
    if ok {
        Some(id)
    } else {
        None
    }
}

/// A valid id holds none of the characters that would change a URL path or
/// query, or step out of a directory: `/`, `\`, `.`, `?`, `#`, `&`, a space
/// or NUL; and it is not empty.
pub proof fn lemma_valid_id_is_path_safe(id: Seq<char>)
    requires
        valid_id(id),
    ensures
        id.len() > 0,
        forall|i: int|
            0 <= i < id.len() ==> #[trigger] id[i] != '/' && id[i] != '\\' && id[i] != '.' && id[i]
                != '?' && id[i] != '#' && id[i] != '&' && id[i] != ' ' && id[i] != '\0',
{
    assert forall|i: int| 0 <= i < id.len() implies #[trigger] id[i] != '/' && id[i] != '\\'
        && id[i] != '.' && id[i] != '?' && id[i] != '#' && id[i] != '&' && id[i] != ' ' && id[i] != '\0' by {
        assert(id_char(id[i]));
    }
}

/// The characters an id may hold are exactly the ASCII letters of either
/// case, the ASCII digits, `-` and `_`.
pub proof fn lemma_id_chars(c: char)
    ensures
        id_char(c) <==> ('0' <= c && c <= '9') || ('a' <= c && c <= 'z') || ('A' <= c && c
            <= 'Z') || c == '-' || c == '_',
{
}

/// Every non-empty id made only of ASCII letters (either case), digits,
/// `-` and `_` is accepted.
pub proof fn lemma_valid_id_accepts(id: Seq<char>)
    requires
        id.len() > 0,
        forall|i: int|
            0 <= i < id.len() ==> ('0' <= #[trigger] id[i] && id[i] <= '9') || ('a' <= id[i]
                && id[i] <= 'z') || ('A' <= id[i] && id[i] <= 'Z') || id[i] == '-' || id[i]
                == '_',
    ensures
        valid_id(id),
{
}

/// The API endpoint and key, each fixed by the first initialisation.
pub struct ApiSettings {
    url: Option<String>,
    key: Option<String>,
}

/// The settings as plain values: the URL and the key, when set.
pub struct ApiSettingsView {
    pub url: Option<Seq<char>>,
    pub key: Option<Seq<char>>,
}

pub open spec fn opt_string_view(o: Option<String>) -> Option<Seq<char>> {
    match o {
        Some(s) => Some(s@),
        None => None,
    }
}

impl View for ApiSettings {
    type V = ApiSettingsView;

    closed spec fn view(&self) -> ApiSettingsView {
        ApiSettingsView { url: opt_string_view(self.url), key: opt_string_view(self.key) }
    }
}

/// The settings after an initialisation with `url` and `key`: a value that is
/// already set stays; one that is not takes the new value.
pub open spec fn after_init(s: ApiSettingsView, url: Seq<char>, key: Seq<char>) -> ApiSettingsView {
    ApiSettingsView {
        url: if s.url is Some { s.url } else { Some(url) },
        key: if s.key is Some { s.key } else { Some(key) },
    }
}

impl ApiSettings {
    /// Settings with nothing set yet.
    pub fn new() -> (s: ApiSettings)
        ensures
            s@.url is None,
            s@.key is None,
    {
        ApiSettings { url: None, key: None }
    }
}

/// Sets the API URL and key. Safe to call more than once: later calls leave
/// what the first one set.
pub fn init(settings: &mut ApiSettings, api_url: String, api_key: String)
    ensures
        final(settings)@ == after_init(old(settings)@, api_url@, api_key@),
{
    if settings.url.is_none() {
        settings.url = Some(api_url);
    }
    if settings.key.is_none() {
        settings.key = Some(api_key);
    }
}

/// The API URL. It must have been set (the server reads it only after
/// initialisation).
pub fn api_url(settings: &ApiSettings) -> (r: &String)
    requires
        settings@.url is Some,
    ensures
        settings@.url == Some(r@),
{
    settings.url.as_ref().unwrap()
}

/// The API URL, or `None` before initialisation.
pub fn try_get_api_url(settings: &ApiSettings) -> (r: Option<&String>)
    ensures
        match r {
            Some(u) => settings@.url == Some(u@),
            None => settings@.url is None,
        },
{
    match &settings.url {
        Some(u) => Some(u),
        None => None,
    }
}

/// The API key. It must have been set.
pub fn api_key(settings: &ApiSettings) -> (r: &String)
    requires
        settings@.key is Some,
    ensures
        settings@.key == Some(r@),
{
    settings.key.as_ref().unwrap()
}

/// Initialisation is idempotent: a second call, with any values, changes
/// nothing that the first one set.
pub proof fn lemma_init_first_wins(
    s: ApiSettingsView,
    url1: Seq<char>,
    key1: Seq<char>,
    url2: Seq<char>,
    key2: Seq<char>,
)
    ensures
        after_init(after_init(s, url1, key1), url2, key2) == after_init(s, url1, key1),
{
}

/// After initialisation on fresh settings, the URL and key read back are the
/// ones given.
pub proof fn lemma_init_reads_back(s: ApiSettingsView, url: Seq<char>, key: Seq<char>)
    requires
        s.url is None,
        s.key is None,
    ensures
        after_init(s, url, key).url == Some(url),
        after_init(s, url, key).key == Some(key),
{
}

/// The API key, or `None` before [`init`].
pub fn try_get_api_key(settings: &ApiSettings) -> (r: Option<&String>)
    ensures
        match r {
            Some(k) => settings@.key == Some(k@),
            None => settings@.key is None,
        },
{
    match &settings.key {
        Some(k) => Some(k),
        None => None,
    }
}

/// The `Authorization` header value for an API key.
pub fn bearer_header(key: &str) -> (r: String)
    ensures
        r@ == "Bearer "@ + key@,
{
    crate::text::concat_str("Bearer ", key)
}

/// The URL of an API path.
pub fn endpoint(api_url: &str, path: &str) -> (r: String)
    ensures
        r@ == api_url@ + path@,
{
    crate::text::concat_str(api_url, path)
}

/// Why an API request got no response.
#[derive(Debug, PartialEq, Eq)]
pub enum RequestFailure {
    /// The 30 s timeout ran out.
    Timeout,
    /// No connection could be made.
    Connect,
    /// Anything else; its text follows.
    Other,
}

/// The error of a request that got no response: a timeout and a refused
/// connection name the API URL, anything else the method and its detail.
pub fn request_error(method: &str, api_url: &str, failure: RequestFailure, detail: &str) -> (r: String)
    ensures
        r@ == match failure {
            RequestFailure::Timeout => "API request timed out after 30s. The API server may be down or unreachable: "@
                + api_url@,
            RequestFailure::Connect => "Cannot connect to API server at "@ + api_url@
                + ". Check if the server is running."@,
            RequestFailure::Other => method@ + " request failed: "@ + detail@,
        },
{
    match failure {
        RequestFailure::Timeout => crate::text::concat_str(
            "API request timed out after 30s. The API server may be down or unreachable: ",
            api_url,
        ),
        RequestFailure::Connect => crate::text::concat3(
            "Cannot connect to API server at ",
            api_url,
            ". Check if the server is running.",
        ),
        RequestFailure::Other => crate::text::concat3(method, " request failed: ", detail),
    }
}

/// The error of a response whose status is not a success.
pub fn status_error(method: &str, status: &str, body: &str) -> (r: String)
    ensures
        r@ == "API "@ + method@ + " failed: "@ + status@ + " - "@ + body@,
{
    let head = crate::text::concat3("API ", method, " failed: ");
    crate::text::concat4(head.as_str(), status, " - ", body)
}

} // verus!
