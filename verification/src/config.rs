//! Settings read from the user's `config.toml`: a line-by-line lookup of
//! `key = value` pairs, and the settings the server takes from it.
use vstd::prelude::*;
use crate::text::{
    chars_of, digit_char, is_whitespace, is_ws, skip_chars, spec_decimal, starts_with,
    starts_with_chars, string_from_chars, trim_end, trim_start, trim_start_chars,
};
use crate::lines::{lemma_first_nl_is, spec_lines, split_lines, strip_cr};

verus! {

/// `s` without whitespace at either end (`str::trim`).
pub open spec fn trim(s: Seq<char>) -> Seq<char> {
    trim_end(trim_start(s))
}

/// `s` without its leading copies of `c` (`str::trim_start_matches(c)`).
pub open spec fn trim_char_start(s: Seq<char>, c: char) -> Seq<char>
    decreases s.len(),
{
    if s.len() > 0 && s[0] == c {
        trim_char_start(s.drop_first(), c)
    } else {
        s
    }
}

/// `s` without its trailing copies of `c` (`str::trim_end_matches(c)`).
pub open spec fn trim_char_end(s: Seq<char>, c: char) -> Seq<char>
    decreases s.len(),
{
    if s.len() > 0 && s.last() == c {
        trim_char_end(s.drop_last(), c)
    } else {
        s
    }
}

/// `s` without copies of `c` at either end (`str::trim_matches(c)`).
pub open spec fn trim_char(s: Seq<char>, c: char) -> Seq<char> {
    trim_char_end(trim_char_start(s, c), c)
}

/// The part of `s` before its first `c`, or all of `s`
/// (`s.split(c).next()`).
pub open spec fn before_char(s: Seq<char>, c: char) -> Seq<char>
    decreases s.len(),
{
    if s.len() == 0 || s[0] == c {
        Seq::empty()
    } else {
        seq![s[0]] + before_char(s.drop_first(), c)
    }
}

/// `key` with each `_` written as `-`.
pub open spec fn dashed(key: Seq<char>) -> Seq<char> {
    key.map_values(|ch: char| if ch == '_' { '-' } else { ch })
}

/// The value a line gives to `key`: the trimmed line must start with `key`
/// (or its dashed form), then, after optional whitespace, `=`. The value is
/// what follows the `=` signs up to a `#`, trimmed, then stripped of
/// surrounding `"` and then `'`. An empty value counts as no value.
pub open spec fn line_value(line: Seq<char>, key: Seq<char>) -> Option<Seq<char>> {
    let t = trim(line);
    let rest = if starts_with(t, key) {
        Some(t.skip(key.len() as int))
    } else if starts_with(t, dashed(key)) {
        Some(t.skip(key.len() as int))
    } else {
        None
    };
    match rest {
        None => None,
        Some(r) => {
            let a = trim_start(r);
            if a.len() > 0 && a[0] == '=' {
                let v = trim_char(
                    trim_char(trim(before_char(trim_char_start(a, '='), '#')), '"'),
                    '\'',
                );
                if v.len() > 0 {
                    Some(v)
                } else {
                    None
                }
            } else {
                None
            }
        },
    }
}

/// A character a plain setting value may hold: not whitespace, and none of
/// `#`, `"`, `'`, `=`.
pub open spec fn plain_value_char(c: char) -> bool {
    !is_ws(c) && c != '#' && c != '"' && c != '\'' && c != '='
}

/// A line written `key=value`, `key = "value"` style without the spaces and
/// quotes, reads back the value it was written with: for a key that does
/// not start or end with whitespace and a non-empty plain value.
pub proof fn lemma_line_value_read_back(key: Seq<char>, v: Seq<char>)
    requires
        key.len() > 0,
        !is_ws(key[0]),
        v.len() > 0,
        forall|i: int| 0 <= i < v.len() ==> plain_value_char(#[trigger] v[i]),
    ensures
        line_value(key + seq!['='] + v, key) == Some(v),
{
    let line = key + seq!['='] + v;
    assert(line[0] == key[0]);
    assert(line.last() == v.last());
    assert(plain_value_char(v.last()));
    assert(trim_start(line) == line);
    assert(trim_end(line) == line);
    assert(trim(line) == line);
    assert(line.take(key.len() as int) =~= key);
    let rest = line.skip(key.len() as int);
    assert(rest =~= seq!['='] + v);
    assert(trim_start(rest) == rest);
    assert(rest.drop_first() =~= v);
    assert(plain_value_char(v[0]));
    assert(trim_char_start(v, '=') == v);
    assert(trim_char_start(rest, '=') == v);
    lemma_before_char_absent(v, '#');
    assert(trim_start(v) == v);
    assert(trim_end(v) == v);
    assert(trim_char_start(v, '"') == v);
    assert(trim_char_end(v, '"') == v);
    assert(trim_char_start(v, '\'') == v);
    assert(trim_char_end(v, '\'') == v);
}

/// A config text whose first line is written `key=value` (a key that does not
/// start with whitespace nor hold a line break, and a non-empty plain value)
/// gives that value for the key, whatever the lines after it hold.
pub proof fn lemma_config_value_read_back(key: Seq<char>, v: Seq<char>, rest: Seq<char>)
    requires
        key.len() > 0,
        !is_ws(key[0]),
        forall|i: int| 0 <= i < key.len() ==> #[trigger] key[i] != '\n',
        v.len() > 0,
        forall|i: int| 0 <= i < v.len() ==> plain_value_char(#[trigger] v[i]),
    ensures
        spec_config_value(key + seq!['='] + v + seq!['\n'] + rest, key) == Some(v),
{
    let line = key + seq!['='] + v;
    let content = line + seq!['\n'] + rest;
    assert forall|j: int| 0 <= j < line.len() implies content[j] != '\n' by {
        if j < key.len() {
            assert(content[j] == key[j]);
        } else if j > key.len() {
            assert(content[j] == v[j - key.len() - 1]);
            assert(plain_value_char(v[j - key.len() - 1]));
        }
    }
    lemma_first_nl_is(content, line.len() as int);
    assert(content.take(line.len() as int) =~= line);
    assert(plain_value_char(v.last()));
    assert(line.last() == v.last());
    assert(strip_cr(line) == line);
    lemma_line_value_read_back(key, v);
    let ls = spec_lines(content);
    assert(ls[0] == line);
    assert(ls.len() > 0);
}

/// The part before `c` of a text without `c` is the whole text.
proof fn lemma_before_char_absent(s: Seq<char>, c: char)
    requires
        forall|i: int| 0 <= i < s.len() ==> #[trigger] s[i] != c,
    ensures
        before_char(s, c) == s,
    decreases s.len(),
{
    if s.len() > 0 {
        assert forall|i: int| 0 <= i < s.drop_first().len() implies #[trigger] s.drop_first()[i] != c by {
            assert(s.drop_first()[i] == s[i + 1]);
        }
        lemma_before_char_absent(s.drop_first(), c);
        assert(seq![s[0]] + s.drop_first() =~= s);
    }
}

/// The first value that a line among `ls` gives to `key`.
pub open spec fn first_value(ls: Seq<Seq<char>>, key: Seq<char>) -> Option<Seq<char>>
    decreases ls.len(),
{
    if ls.len() == 0 {
        None
    } else {
        match line_value(ls[0], key) {
            Some(v) => Some(v),
            None => first_value(ls.drop_first(), key),
        }
    }
}

/// The value of `key` in a config file's text: the first line that sets it.
pub open spec fn spec_config_value(content: Seq<char>, key: Seq<char>) -> Option<Seq<char>> {
    first_value(spec_lines(content), key)
}

pub proof fn lemma_trim_end_take(s: Seq<char>, k: int)
    requires
        0 <= k <= s.len(),
        forall|i: int| k <= i < s.len() ==> is_ws(#[trigger] s[i]),
    ensures
        trim_end(s) == trim_end(s.take(k)),
    decreases s.len() - k,
{
    if k < s.len() {
        lemma_trim_end_take(s.drop_last(), k);
        assert(s.drop_last().take(k) =~= s.take(k));
    } else {
        assert(s.take(k) =~= s);
    }
}

/// `v` without trailing whitespace.
pub fn trim_end_chars(v: &[char]) -> (r: Vec<char>)
    ensures
        r@ == trim_end(v@),
{
    let mut k: usize = v.len();
    while k > 0 && is_whitespace(v[k - 1])
        invariant
            k <= v@.len(),
            forall|i: int| k <= i < v@.len() ==> is_ws(#[trigger] v@[i]),
        decreases k,
    {
        k = k - 1;
    }
    proof {
        lemma_trim_end_take(v@, k as int);
    }
    let r = take_chars(v, k);
    r
}

/// `v[..k]` as a new vector.
pub fn take_chars(v: &[char], k: usize) -> (r: Vec<char>)
    requires
        k <= v@.len(),
    ensures
        r@ == v@.take(k as int),
{
    let mut r: Vec<char> = Vec::new();
    let mut j: usize = 0;
    while j < k
        invariant
            j <= k <= v@.len(),
            r@ == v@.take(j as int),
        decreases k - j,
    {
        r.push(v[j]);
        assert(v@.take(j + 1) =~= v@.take(j as int).push(v@[j as int]));
        j = j + 1;
    }
    r
}

/// `v` without whitespace at either end.
pub fn trim_chars(v: &[char]) -> (r: Vec<char>)
    ensures
        r@ == trim(v@),
{
    let a = trim_start_chars(v);
    trim_end_chars(a.as_slice())
}

pub proof fn lemma_trim_char_start_skip(s: Seq<char>, c: char, k: int)
    requires
        0 <= k <= s.len(),
        forall|i: int| 0 <= i < k ==> #[trigger] s[i] == c,
    ensures
        trim_char_start(s, c) == trim_char_start(s.skip(k), c),
    decreases k,
{
    if k > 0 {
        lemma_trim_char_start_skip(s.drop_first(), c, k - 1);
        assert(s.drop_first().skip(k - 1) =~= s.skip(k));
    } else {
        assert(s.skip(0) =~= s);
    }
}

pub proof fn lemma_trim_char_end_take(s: Seq<char>, c: char, k: int)
    requires
        0 <= k <= s.len(),
        forall|i: int| k <= i < s.len() ==> #[trigger] s[i] == c,
    ensures
        trim_char_end(s, c) == trim_char_end(s.take(k), c),
    decreases s.len() - k,
{
    if k < s.len() {
        lemma_trim_char_end_take(s.drop_last(), c, k);
        assert(s.drop_last().take(k) =~= s.take(k));
    } else {
        assert(s.take(k) =~= s);
    }
}

/// `v` without its leading copies of `c`.
pub fn trim_char_start_chars(v: &[char], c: char) -> (r: Vec<char>)
    ensures
        r@ == trim_char_start(v@, c),
{
    let mut k: usize = 0;
    while k < v.len() && v[k] == c
        invariant
            k <= v@.len(),
            forall|i: int| 0 <= i < k ==> #[trigger] v@[i] == c,
        decreases v@.len() - k,
    {
        k = k + 1;
    }
    proof {
        lemma_trim_char_start_skip(v@, c, k as int);
        assert(!(v@.skip(k as int).len() > 0 && v@.skip(k as int)[0] == c));
    }
    skip_chars(v, k)
}

/// `v` without its trailing copies of `c`.
pub fn trim_char_end_chars(v: &[char], c: char) -> (r: Vec<char>)
    ensures
        r@ == trim_char_end(v@, c),
{
    let mut k: usize = v.len();
    while k > 0 && v[k - 1] == c
        invariant
            k <= v@.len(),
            forall|i: int| k <= i < v@.len() ==> #[trigger] v@[i] == c,
        decreases k,
    {
        k = k - 1;
    }
    proof {
        lemma_trim_char_end_take(v@, c, k as int);
        assert(!(v@.take(k as int).len() > 0 && v@.take(k as int).last() == c));
    }
    take_chars(v, k)
}

/// `v` without copies of `c` at either end.
pub fn trim_char_chars(v: &[char], c: char) -> (r: Vec<char>)
    ensures
        r@ == trim_char(v@, c),
{
    let a = trim_char_start_chars(v, c);
    trim_char_end_chars(a.as_slice(), c)
}

pub proof fn lemma_before_char(s: Seq<char>, c: char, k: int)
    requires
        0 <= k <= s.len(),
        forall|i: int| 0 <= i < k ==> #[trigger] s[i] != c,
        k == s.len() || s[k] == c,
    ensures
        before_char(s, c) == s.take(k),
    decreases k,
{
    if k > 0 {
        lemma_before_char(s.drop_first(), c, k - 1);
        assert(seq![s[0]] + s.drop_first().take(k - 1) =~= s.take(k));
    } else {
        assert(s.take(0) =~= Seq::<char>::empty());
    }
}

/// `v` up to its first `c`.
pub fn before_char_chars(v: &[char], c: char) -> (r: Vec<char>)
    ensures
        r@ == before_char(v@, c),
{
    let mut k: usize = 0;
    while k < v.len() && v[k] != c
        invariant
            k <= v@.len(),
            forall|i: int| 0 <= i < k ==> #[trigger] v@[i] != c,
        decreases v@.len() - k,
    {
        k = k + 1;
    }
    proof {
        lemma_before_char(v@, c, k as int);
    }
    take_chars(v, k)
}

/// `key` with each `_` written as `-`.
pub fn dashed_chars(key: &[char]) -> (r: Vec<char>)
    ensures
        r@ == dashed(key@),
{
    let mut r: Vec<char> = Vec::new();
    let mut i: usize = 0;
    while i < key.len()
        invariant
            i <= key@.len(),
            r@ == dashed(key@.take(i as int)),
        decreases key@.len() - i,
    {
        let ch = key[i];
        r.push(if ch == '_' { '-' } else { ch });
        assert(dashed(key@.take(i + 1)) =~= dashed(key@.take(i as int)).push(
            if ch == '_' { '-' } else { ch },
        ));
        i = i + 1;
    }
    assert(key@.take(key@.len() as int) =~= key@);
    r
}

/// The value `line` gives to `key`, as [`line_value`] states.
fn line_value_chars(line: &[char], key: &[char], alt: &[char]) -> (r: Option<Vec<char>>)
    requires
        alt@ == dashed(key@),
    ensures
        match r {
            Some(v) => line_value(line@, key@) == Some(v@),
            None => line_value(line@, key@) is None,
        },
{
    let t = trim_chars(line);
    let rest = if starts_with_chars(t.as_slice(), key) {
        skip_chars(t.as_slice(), key.len())
    } else if starts_with_chars(t.as_slice(), alt) {
        assert(alt@.len() == key@.len());
        skip_chars(t.as_slice(), key.len())
    } else {
        return None;
    };
    let a = trim_start_chars(rest.as_slice());
    if a.len() > 0 && a[0] == '=' {
        let eq_stripped = trim_char_start_chars(a.as_slice(), '=');
        let before = before_char_chars(eq_stripped.as_slice(), '#');
        let trimmed = trim_chars(before.as_slice());
        let unquoted = trim_char_chars(trimmed.as_slice(), '"');
        let v = trim_char_chars(unquoted.as_slice(), '\'');
        if v.len() > 0 {
            Some(v)
        } else {
            None
        }
    } else {
        None
    }
}

/// Looks `key` up in the text of a config file, line by line: the first line
/// that sets it gives the value (see [`line_value`]). Both `key_name` and
/// `key-name` spellings match.
pub fn read_config_value(content: &str, key: &str) -> (r: Option<String>)
    ensures
        match r {
            Some(v) => spec_config_value(content@, key@) == Some(v@),
            None => spec_config_value(content@, key@) is None,
        },
{
    let ls = split_lines(content);
    let kc = chars_of(key);
    let alt = dashed_chars(kc.as_slice());
    let ghost all = spec_lines(content@);
    assert(all.skip(0) =~= all);
    let mut i: usize = 0;
    while i < ls.len()
        invariant
            all == spec_lines(content@),
            ls@.len() == all.len(),
            forall|j: int| 0 <= j < ls@.len() ==> #[trigger] ls@[j]@ == all[j],
            kc@ == key@,
            alt@ == dashed(key@),
            i <= ls@.len(),
            first_value(all, key@) == first_value(all.skip(i as int), key@),
        decreases ls@.len() - i,
    {
        assert(all.skip(i as int)[0] == all[i as int]);
        assert(all.skip(i as int).drop_first() =~= all.skip(i + 1));
        match line_value_chars(ls[i].as_slice(), kc.as_slice(), alt.as_slice()) {
            Some(v) => {
                assert(first_value(all.skip(i as int), key@) == Some(v@));
                let out = string_from_chars(v.as_slice());
                return Some(out);
            },
            None => {},
        }
        i = i + 1;
    }
    assert(all.skip(i as int).len() == 0);
    None
}

/// The server mode from the config text: its `mode` value, or
/// `"standalone"` when the config is missing or does not set it.
pub fn read_mode(config: Option<&str>) -> (r: String)
    ensures
        r@ == match config {
            Some(c) => match spec_config_value(c@, "mode"@) {
                Some(v) => v,
                None => "standalone"@,
            },
            None => "standalone"@,
        },
{
    let found = match config {
        Some(c) => read_config_value(c, "mode"),
        None => None,
    };
    match found {
        Some(v) => v,
        None => "standalone".to_string(),
    }
}

/// A setting looked up in the config text, when there is one.
pub open spec fn setting(config: Option<&str>, key: Seq<char>) -> Option<Seq<char>> {
    match config {
        Some(c) => spec_config_value(c@, key),
        None => None,
    }
}

pub open spec fn opt_view(o: Option<String>) -> Option<Seq<char>> {
    match o {
        Some(s) => Some(s@),
        None => None,
    }
}

fn lookup(config: Option<&str>, key: &str) -> (r: Option<String>)
    ensures
        opt_view(r) == setting(config, key@),
{
    match config {
        Some(c) => read_config_value(c, key),
        None => None,
    }
}

/// The API URL from the config text (`api_url`).
pub fn read_api_url(config: Option<&str>) -> (r: Option<String>)
    ensures
        opt_view(r) == setting(config, "api_url"@),
{
    lookup(config, "api_url")
}

/// The Redis URL from the config text (`redis_url`).
pub fn read_redis_url(config: Option<&str>) -> (r: Option<String>)
    ensures
        opt_view(r) == setting(config, "redis_url"@),
{
    lookup(config, "redis_url")
}

/// The database URL from the config text (`database_url`).
pub fn read_db_url_from_config(config: Option<&str>) -> (r: Option<String>)
    ensures
        opt_view(r) == setting(config, "database_url"@),
{
    lookup(config, "database_url")
}

/// A setting that an environment variable may override: a non-empty
/// variable wins, otherwise the config value stands.
pub fn env_or_config(env: Option<String>, config: Option<String>) -> (r: Option<String>)
    ensures
        opt_view(r) == match env {
            Some(e) => if e@.len() > 0 { Some(e@) } else { opt_view(config) },
            None => opt_view(config),
        },
{
    match env {
        Some(e) => {
            if e.as_str().is_empty() {
                config
            } else {
                Some(e)
            }
        },
        None => config,
    }
}


/// The embedding provider (`mock`, `ollama` or `openai`): a non-empty
/// `EMBEDDING_PROVIDER` wins over the config's `embedding_provider`.
pub fn read_embedding_provider(env: Option<String>, config: Option<&str>) -> (r: Option<String>)
    ensures
        opt_view(r) == match env {
            Some(e) => if e@.len() > 0 { Some(e@) } else { setting(config, "embedding_provider"@) },
            None => setting(config, "embedding_provider"@),
        },
{
    env_or_config(env, lookup(config, "embedding_provider"))
}

/// The embedding model: a non-empty `EMBEDDING_MODEL` wins over the config's
/// `embedding_model`.
pub fn read_embedding_model(env: Option<String>, config: Option<&str>) -> (r: Option<String>)
    ensures
        opt_view(r) == match env {
            Some(e) => if e@.len() > 0 { Some(e@) } else { setting(config, "embedding_model"@) },
            None => setting(config, "embedding_model"@),
        },
{
    env_or_config(env, lookup(config, "embedding_model"))
}

/// The embedding service's base URL: a non-empty `EMBEDDING_BASE_URL` wins
/// over the config's `embedding_base_url`.
pub fn read_embedding_base_url(env: Option<String>, config: Option<&str>) -> (r: Option<String>)
    ensures
        opt_view(r) == match env {
            Some(e) => if e@.len() > 0 { Some(e@) } else { setting(config, "embedding_base_url"@) },
            None => setting(config, "embedding_base_url"@),
        },
{
    env_or_config(env, lookup(config, "embedding_base_url"))
}

/// Whether a character is an ASCII decimal digit.
pub open spec fn is_digit(c: char) -> bool {
    '0' <= c && c <= '9'
}

/// The value of a run of decimal digits.
pub open spec fn decimal_value(d: Seq<char>) -> nat
    decreases d.len(),
{
    if d.len() == 0 {
        0
    } else {
        decimal_value(d.drop_last()) * 10 + ((d.last() as u32 - '0' as u32) as nat)
    }
}

/// The digits `str::parse::<usize>` reads: the text after one optional
/// leading `+`.
pub open spec fn unsigned_digits(s: Seq<char>) -> Seq<char> {
    if s.len() > 0 && s[0] == '+' {
        s.drop_first()
    } else {
        s
    }
}

/// What `str::parse::<usize>` reads from a string: after an optional `+`,
/// one or more ASCII digits whose value fits in `usize`; `None` otherwise.
pub open spec fn parsed_usize(s: Seq<char>) -> Option<usize> {
    let d = unsigned_digits(s);
    if d.len() > 0 && (forall|i: int| 0 <= i < d.len() ==> is_digit(#[trigger] d[i]))
        && decimal_value(d) <= usize::MAX {
        Some(decimal_value(d) as usize)
    } else {
        None
    }
}

/// Reading back a rendered number: the decimal rendering of `n` is made of
/// ASCII digits whose value is `n`, so `str::parse::<usize>` gives `n` back
/// whenever `n` fits in `usize`.
pub proof fn lemma_decimal_round_trip(n: nat)
    ensures
        forall|i: int| 0 <= i < spec_decimal(n).len() ==> is_digit(#[trigger] spec_decimal(n)[i]),
        decimal_value(spec_decimal(n)) == n,
        n <= usize::MAX ==> parsed_usize(spec_decimal(n)) == Some(n as usize),
    decreases n,
{
    let r = spec_decimal(n);
    if n < 10 {
        lemma_digit_char_value(n);
        assert(r.drop_last() =~= Seq::<char>::empty());
        assert(r.last() == digit_char(n));
        assert(decimal_value(r) == decimal_value(r.drop_last()) * 10 + ((r.last() as u32 - '0' as u32) as nat));
        assert(decimal_value(r) == n);
    } else {
        lemma_decimal_round_trip(n / 10);
        lemma_digit_char_value(n % 10);
        let p = spec_decimal(n / 10);
        assert(r == p.push(digit_char(n % 10)));
        assert(r.drop_last() =~= p);
        assert(r.last() == digit_char(n % 10));
        assert forall|i: int| 0 <= i < r.len() implies is_digit(#[trigger] r[i]) by {
            if i < p.len() {
                assert(r[i] == p[i]);
            }
        }
        assert(n == (n / 10) * 10 + n % 10) by (nonlinear_arith);
        assert(decimal_value(r) == decimal_value(p) * 10 + ((r.last() as u32 - '0' as u32) as nat));
        assert(decimal_value(r) == n);
    }
    if n <= usize::MAX {
        assert(r.len() > 0);
        assert(is_digit(r[0]));
        assert(unsigned_digits(r) == r);
    }
}

proof fn lemma_digit_char_value(d: nat)
    requires
        d < 10,
    ensures
        is_digit(digit_char(d)),
        ((digit_char(d) as u32 - '0' as u32) as nat) == d,
{
}

proof fn lemma_decimal_value_grows(d: Seq<char>, i: int)
    requires
        0 <= i <= d.len(),
        forall|j: int| 0 <= j < d.len() ==> is_digit(#[trigger] d[j]),
    ensures
        decimal_value(d.take(i)) <= decimal_value(d),
    decreases d.len() - i,
{
    if i < d.len() {
        if i == d.len() - 1 {
            assert(d.take(i) =~= d.drop_last());
        } else {
            assert forall|j: int| 0 <= j < d.drop_last().len() implies is_digit(#[trigger] d.drop_last()[j]) by {
                assert(d.drop_last()[j] == d[j]);
            }
            lemma_decimal_value_grows(d.drop_last(), i);
            assert(d.drop_last().take(i) =~= d.take(i));
        }
    } else {
        assert(d.take(i) =~= d);
    }
}

/// Parses a decimal `usize` as `str::parse::<usize>` does.
pub fn parse_usize(s: &str) -> (r: Option<usize>)
    ensures
        r == parsed_usize(s@),
{
    let cs = crate::text::chars_of(s);
    let start: usize = if cs.len() > 0 && cs[0] == '+' { 1 } else { 0 };
    let ghost d = unsigned_digits(s@);
    assert(d =~= cs@.skip(start as int));
    if cs.len() == start {
        return None;
    }
    let mut acc: usize = 0;
    let mut i: usize = start;
    while i < cs.len()
        invariant
            cs@ == s@,
            d == unsigned_digits(s@),
            d == cs@.skip(start as int),
            start <= i <= cs@.len(),
            d.len() > 0,
            forall|j: int| 0 <= j < i - start ==> is_digit(#[trigger] d[j]),
            acc as nat == decimal_value(d.take(i - start)),
        decreases cs@.len() - i,
    {
        let c = cs[i];
        assert(d[i - start] == c);
        if !('0' <= c && c <= '9') {
            assert(!is_digit(d[i - start]));
            return None;
        }
        let dig: usize = ((c as u32) - ('0' as u32)) as usize;
        assert(d.take(i - start + 1).drop_last() =~= d.take(i - start));
        assert(d.take(i - start + 1).last() == c);
        if acc > (usize::MAX - dig) / 10 {
            assert(acc * 10 + dig > usize::MAX) by (nonlinear_arith)
                requires
                    acc > (usize::MAX - dig) / 10,
                    dig <= 9,
            ;
            proof {
                if forall|t: int| 0 <= t < d.len() ==> is_digit(#[trigger] d[t]) {
                    lemma_decimal_value_grows(d, (i - start + 1) as int);
                }
            }
            return None;
        }
        assert(acc * 10 + dig <= usize::MAX) by (nonlinear_arith)
            requires
                acc <= (usize::MAX - dig) / 10,
                dig <= 9,
        ;
        acc = acc * 10 + dig;
        i = i + 1;
    }
    assert(d.take(d.len() as int) =~= d);
    Some(acc)
}

/// The embedding dimensions: `EMBEDDING_DIMENSIONS` when it parses as a
/// number, else the config's `embedding_dimensions` when that does.
pub fn read_embedding_dimensions(env: Option<&str>, config: Option<&str>) -> (r: Option<usize>)
    ensures
        r == match env {
            Some(e) if parsed_usize(e@) is Some => parsed_usize(e@),
            _ => match setting(config, "embedding_dimensions"@) {
                Some(v) => parsed_usize(v),
                None => None,
            },
        },
{
    match env {
        Some(e) => {
            let p = parse_usize(e);
            if p.is_some() {
                return p;
            }
        },
        None => {},
    }
    match lookup(config, "embedding_dimensions") {
        Some(v) => parse_usize(v.as_str()),
        None => None,
    }
}

} // verus!
