//! Feature hashing for the local embeddings: the text is lower-cased, cut
//! into letter/digit unigrams and bigrams, and each token is hashed to one
//! of [`DIM`] dimensions. This module counts the tokens per dimension; the
//! float vector is those counts, normalised.
use std::collections::hash_map::DefaultHasher;
use std::hash::Hasher;
use vstd::prelude::*;
use crate::fingerprint::{feed, stream_hash, str_writes};
use crate::text::{chars_of, string_from_chars};

verus! {

/// The number of dimensions of an embedding.
pub const DIM: usize = 768;

/// What `str::to_lowercase` makes of a string (Unicode lower case, which may
/// change a string's length).
pub uninterp spec fn unicode_lower(s: Seq<char>) -> Seq<char>;

/// Whether a character is alphabetic or numeric in Unicode
/// (`char::is_alphanumeric`).
pub uninterp spec fn unicode_alphanumeric(c: char) -> bool;

/// Lower-cases a string with `str::to_lowercase`.
#[verifier::external_body]
pub(crate) fn to_lower(s: &str) -> (r: String)
    ensures
        r@ == unicode_lower(s@),
{
    s.to_lowercase()
}

/// Whether `c` is alphanumeric, by `char::is_alphanumeric`.
#[verifier::external_body]
pub(crate) fn is_alphanumeric(c: char) -> (r: bool)
    ensures
        r == unicode_alphanumeric(c),
{
    c.is_alphanumeric()
}

/// The unigram tokens: each alphanumeric character, in order.
pub open spec fn unigrams(cs: Seq<char>) -> Seq<Seq<char>>
    decreases cs.len(),
{
    if cs.len() == 0 {
        Seq::empty()
    } else {
        unigrams(cs.drop_last()) + if unicode_alphanumeric(cs.last()) {
            seq![seq![cs.last()]]
        } else {
            Seq::empty()
        }
    }
}

/// The bigram tokens: each pair of adjacent alphanumeric characters, in
/// order of their first character.
pub open spec fn bigrams(cs: Seq<char>) -> Seq<Seq<char>>
    decreases cs.len(),
{
    if cs.len() < 2 {
        Seq::empty()
    } else {
        let a = cs[cs.len() - 2];
        let b = cs.last();
        bigrams(cs.drop_last()) + if unicode_alphanumeric(a) && unicode_alphanumeric(b) {
            seq![seq![a, b]]
        } else {
            Seq::empty()
        }
    }
}

/// The tokens of a text: the unigrams, then the bigrams, of its lower case.
pub open spec fn tokens(text: Seq<char>) -> Seq<Seq<char>> {
    unigrams(unicode_lower(text)) + bigrams(unicode_lower(text))
}

/// The dimension a token is hashed to: its `DefaultHasher` hash modulo
/// [`DIM`].
pub open spec fn dim_of(token: Seq<char>) -> int {
    (stream_hash(seq![token]) % (DIM as u64)) as int
}

/// How many of the tokens are hashed to dimension `d`.
pub open spec fn tally(ts: Seq<Seq<char>>, d: int) -> nat
    decreases ts.len(),
{
    if ts.len() == 0 {
        0
    } else {
        tally(ts.drop_last(), d) + if dim_of(ts.last()) == d {
            1nat
        } else {
            0nat
        }
    }
}

pub proof fn lemma_tally_bound(ts: Seq<Seq<char>>, d: int)
    ensures
        tally(ts, d) <= ts.len(),
    decreases ts.len(),
{
    if ts.len() > 0 {
        lemma_tally_bound(ts.drop_last(), d);
    }
}

pub proof fn lemma_tally_concat(a: Seq<Seq<char>>, b: Seq<Seq<char>>, d: int)
    ensures
        tally(a + b, d) == tally(a, d) + tally(b, d),
    decreases b.len(),
{
    if b.len() == 0 {
        assert(a + b =~= a);
    } else {
        assert((a + b).drop_last() =~= a + b.drop_last());
        lemma_tally_concat(a, b.drop_last(), d);
    }
}

pub proof fn lemma_unigrams_len(cs: Seq<char>)
    ensures
        unigrams(cs).len() <= cs.len(),
    decreases cs.len(),
{
    if cs.len() > 0 {
        lemma_unigrams_len(cs.drop_last());
    }
}

pub proof fn lemma_bigrams_len(cs: Seq<char>)
    ensures
        bigrams(cs).len() <= cs.len(),
    decreases cs.len(),
{
    if cs.len() >= 2 {
        lemma_bigrams_len(cs.drop_last());
    }
}

/// The dimension a token hashes to.
fn token_dim(token: &str) -> (d: usize)
    ensures
        d as int == dim_of(token@),
        d < DIM,
{
    let mut h = DefaultHasher::new();
    let ghost none: Seq<Seq<char>> = Seq::empty();
    assert(h@ =~= str_writes(none));
    feed(&mut h, token, Ghost(none));
    assert(none.push(token@) =~= seq![token@]);
    let v = h.finish();
    (v % 768) as usize
}

/// Counts `token` in dimension [`dim_of`]`(token)`.
fn count_token(counts: &mut Vec<u128>, token: &[char], Ghost(seen): Ghost<Seq<Seq<char>>>, Ghost(
    limit,
): Ghost<nat>)
    requires
        old(counts)@.len() == DIM,
        forall|d: int| 0 <= d < DIM ==> old(counts)@[d] == tally(seen, d),
        seen.len() < limit,
        limit <= u128::MAX,
    ensures
        final(counts)@.len() == DIM,
        forall|d: int| 0 <= d < DIM ==> final(counts)@[d] == tally(seen.push(token@), d),
{
    let s = string_from_chars(token);
    let d = token_dim(s.as_str());
    proof {
        lemma_tally_bound(seen, d as int);
        assert(seen.push(token@).drop_last() =~= seen);
    }
    let c = counts[d];
    counts.set(d, c + 1);
    proof {
        let t = seen.push(token@);
        assert(t.last() == token@);
        assert forall|e: int| 0 <= e < DIM implies final(counts)@[e] == tally(t, e) by {
            assert(tally(t, e) == tally(seen, e) + if dim_of(token@) == e {
                1nat
            } else {
                0nat
            });
        }
    }
}

/// Counts the tokens of `text` per dimension: entry `d` is the number of
/// [`tokens`] whose hash falls in dimension `d`.
pub fn term_counts(text: &str) -> (r: Vec<u128>)
    ensures
        r@.len() == DIM,
        forall|d: int| 0 <= d < DIM ==> #[trigger] r@[d] == tally(tokens(text@), d),
{
    let lower = to_lower(text);
    let cs = chars_of(lower.as_str());
    let ghost l = unicode_lower(text@);
    proof {
        lemma_unigrams_len(l);
        lemma_bigrams_len(l);
    }
    let mut counts: Vec<u128> = Vec::new();
    let mut k: usize = 0;
    while k < DIM
        invariant
            k <= DIM,
            counts@.len() == k,
            forall|d: int| 0 <= d < k ==> counts@[d] == 0,
        decreases DIM - k,
    {
        counts.push(0);
        k = k + 1;
    }
    assert(unigrams(cs@.take(0)) =~= Seq::<Seq<char>>::empty());
    let mut i: usize = 0;
    while i < cs.len()
        invariant
            cs@ == l,
            unigrams(l).len() <= l.len(),
            bigrams(l).len() <= l.len(),
            i <= cs@.len(),
            counts@.len() == DIM,
            forall|d: int| 0 <= d < DIM ==> counts@[d] == tally(unigrams(cs@.take(i as int)), d),
        decreases cs@.len() - i,
    {
        let c = cs[i];
        proof {
            assert(cs@.take(i + 1).drop_last() =~= cs@.take(i as int));
            lemma_unigrams_len(cs@.take(i as int));
        }
        if is_alphanumeric(c) {
            let tok: [char; 1] = [c];
            count_token(&mut counts, &tok, Ghost(unigrams(cs@.take(i as int))), Ghost((l.len() + 1) as nat));
            proof {
                assert(tok@ =~= seq![c]);
                assert(unigrams(cs@.take(i + 1)) =~= unigrams(cs@.take(i as int)).push(seq![c]));
            }
        } else {
            assert(unigrams(cs@.take(i + 1)) =~= unigrams(cs@.take(i as int)));
        }
        i = i + 1;
    }
    assert(cs@.take(cs@.len() as int) =~= cs@);
    let ghost uni = unigrams(l);
    if cs.len() > 0 {
        assert(bigrams(cs@.take(1)) =~= Seq::<Seq<char>>::empty());
        assert(uni + bigrams(cs@.take(1)) =~= uni);
        let mut j: usize = 1;
        while j < cs.len()
            invariant
                cs@ == l,
                uni == unigrams(l),
                unigrams(l).len() <= l.len(),
                bigrams(l).len() <= l.len(),
                1 <= j <= cs@.len(),
                counts@.len() == DIM,
                forall|d: int| 0 <= d < DIM ==> counts@[d] == tally(uni + bigrams(cs@.take(j as int)), d),
            decreases cs@.len() - j,
        {
            let a = cs[j - 1];
            let b = cs[j];
            proof {
                assert(cs@.take(j + 1).drop_last() =~= cs@.take(j as int));
                assert(cs@.take(j + 1)[j - 1] == a);
                lemma_bigrams_len(cs@.take(j as int));
            }
            if is_alphanumeric(a) && is_alphanumeric(b) {
                let tok: [char; 2] = [a, b];
                count_token(
                    &mut counts,
                    &tok,
                    Ghost(uni + bigrams(cs@.take(j as int))),
                    Ghost((2 * l.len() + 1) as nat),
                );
                proof {
                    assert(tok@ =~= seq![a, b]);
                    assert(bigrams(cs@.take(j + 1)) =~= bigrams(cs@.take(j as int)).push(seq![a, b]));
                    assert(uni + bigrams(cs@.take(j + 1)) =~= (uni + bigrams(cs@.take(j as int))).push(
                        seq![a, b],
                    ));
                }
            } else {
                assert(bigrams(cs@.take(j + 1)) =~= bigrams(cs@.take(j as int)));
            }
            j = j + 1;
        }
        assert(cs@.take(j as int) =~= cs@);
    } else {
        assert(bigrams(l) =~= Seq::<Seq<char>>::empty());
        assert(uni + bigrams(l) =~= uni);
    }
    assert(uni + bigrams(l) == tokens(text@));
    counts
}

/// The counts see only the lower case of a text: two texts with the same
/// lower case have the same counts in every dimension.
pub proof fn lemma_counts_case_insensitive(a: Seq<char>, b: Seq<char>, d: int)
    requires
        unicode_lower(a) == unicode_lower(b),
    ensures
        tally(tokens(a), d) == tally(tokens(b), d),
{
}

/// The counts of the tokens in the dimensions below `upto`, summed.
pub open spec fn total(ts: Seq<Seq<char>>, upto: int) -> nat
    decreases upto,
{
    if upto <= 0 {
        0
    } else {
        total(ts, upto - 1) + tally(ts, upto - 1)
    }
}

/// Every token is counted once: summed over all dimensions, the counts are
/// the number of tokens.
pub proof fn lemma_total_tokens(ts: Seq<Seq<char>>)
    ensures
        total(ts, DIM as int) == ts.len(),
    decreases ts.len(),
{
    if ts.len() > 0 {
        lemma_total_tokens(ts.drop_last());
        lemma_total_step(ts, DIM as int);
    } else {
        lemma_total_zero(ts, DIM as int);
    }
}

proof fn lemma_total_zero(ts: Seq<Seq<char>>, upto: int)
    requires
        ts.len() == 0,
    ensures
        total(ts, upto) == 0,
    decreases upto,
{
    if upto > 0 {
        lemma_total_zero(ts, upto - 1);
    }
}

proof fn lemma_total_step(ts: Seq<Seq<char>>, upto: int)
    requires
        ts.len() > 0,
        0 <= upto <= DIM,
    ensures
        total(ts, upto) == total(ts.drop_last(), upto) + if 0 <= dim_of(ts.last()) < upto {
            1nat
        } else {
            0nat
        },
    decreases upto,
{
    if upto > 0 {
        lemma_total_step(ts, upto - 1);
    }
}

} // verus!
