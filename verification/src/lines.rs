//! Line splitting as `str::lines` does it, and joining lines back.
use vstd::prelude::*;
use crate::text::chars_of;

verus! {

/// Index of the first `'\n'` in `s`, or -1.
pub open spec fn first_nl(s: Seq<char>) -> int
    decreases s.len(),
{
    if s.len() == 0 {
        -1
    } else if s[0] == '\n' {
        0
    } else if first_nl(s.drop_first()) < 0 {
        -1
    } else {
        first_nl(s.drop_first()) + 1
    }
}

/// A line without the `'\r'` of a `"\r\n"` ending.
pub open spec fn strip_cr(l: Seq<char>) -> Seq<char> {
    if l.len() > 0 && l.last() == '\r' {
        l.drop_last()
    } else {
        l
    }
}

/// The lines of `s` (`str::lines`): split at `'\n'`, a `'\r'` before the
/// `'\n'` dropped, and no empty line after a final `'\n'`.
pub open spec fn spec_lines(s: Seq<char>) -> Seq<Seq<char>>
    decreases s.len(),
{
    if s.len() == 0 {
        Seq::empty()
    } else if first_nl(s) < 0 {
        seq![s]
    } else {
        proof {
            lemma_first_nl(s);
        }
        seq![strip_cr(s.take(first_nl(s)))] + spec_lines(s.skip(first_nl(s) + 1))
    }
}

/// Lines joined with `'\n'` between them.
pub open spec fn join_lines(ls: Seq<Seq<char>>) -> Seq<char>
    decreases ls.len(),
{
    if ls.len() == 0 {
        Seq::empty()
    } else if ls.len() == 1 {
        ls[0]
    } else {
        join_lines(ls.drop_last()) + seq!['\n'] + ls.last()
    }
}

/// A newline found in `x` is still the first one once more text follows.
pub proof fn lemma_first_nl_append(x: Seq<char>, w: Seq<char>)
    requires
        first_nl(x) >= 0,
    ensures
        first_nl(x + w) == first_nl(x),
    decreases x.len(),
{
    if x[0] != '\n' {
        assert((x + w).drop_first() =~= x.drop_first() + w);
        lemma_first_nl_append(x.drop_first(), w);
    }
}

/// Joining two non-empty runs of lines is joining each and putting a
/// newline between them.
pub proof fn lemma_join_concat(a: Seq<Seq<char>>, b: Seq<Seq<char>>)
    requires
        a.len() > 0,
        b.len() > 0,
    ensures
        join_lines(a + b) == join_lines(a) + seq!['\n'] + join_lines(b),
    decreases b.len(),
{
    if b.len() == 1 {
        assert((a + b).drop_last() =~= a);
        assert((a + b).last() == b[0]);
    } else {
        assert((a + b).drop_last() =~= a + b.drop_last());
        lemma_join_concat(a, b.drop_last());
        assert((a + b).last() == b.last());
        assert(join_lines(a + b) =~= join_lines(a) + seq!['\n'] + join_lines(b));
    }
}

/// Text after a newline never takes lines away: `x` followed by a newline
/// and more text has at least as many lines as `x`.
pub proof fn lemma_lines_grow(x: Seq<char>, y: Seq<char>)
    ensures
        spec_lines(x + seq!['\n'] + y).len() >= spec_lines(x).len(),
    decreases x.len(),
{
    let z = x + seq!['\n'] + y;
    lemma_first_nl(x);
    lemma_first_nl(z);
    if x.len() > 0 {
        if first_nl(x) >= 0 {
            let k = first_nl(x);
            assert(z =~= x + (seq!['\n'] + y));
            lemma_first_nl_append(x, seq!['\n'] + y);
            assert(z.skip(k + 1) =~= x.skip(k + 1) + seq!['\n'] + y);
            lemma_lines_grow(x.skip(k + 1), y);
        }
    }
}

pub proof fn lemma_first_nl(s: Seq<char>)
    ensures
        -1 <= first_nl(s) < s.len(),
        first_nl(s) >= 0 ==> s[first_nl(s)] == '\n',
        forall|j: int| 0 <= j < s.len() && (first_nl(s) < 0 || j < first_nl(s)) ==> s[j] != '\n',
    decreases s.len(),
{
    if s.len() > 0 {
        lemma_first_nl(s.drop_first());
        assert forall|j: int| 0 <= j < s.len() && (first_nl(s) < 0 || j < first_nl(s)) implies s[j]
            != '\n' by {
            if j > 0 {
                assert(s[j] == s.drop_first()[j - 1]);
            }
        }
    }
}

pub proof fn lemma_first_nl_is(s: Seq<char>, k: int)
    requires
        0 <= k < s.len(),
        s[k] == '\n',
        forall|j: int| 0 <= j < k ==> s[j] != '\n',
    ensures
        first_nl(s) == k,
{
    lemma_first_nl(s);
    if first_nl(s) < 0 || first_nl(s) > k {
        assert(s[k] != '\n');
    }
}

proof fn lemma_first_nl_none(s: Seq<char>)
    requires
        forall|j: int| 0 <= j < s.len() ==> s[j] != '\n',
    ensures
        first_nl(s) == -1,
{
    lemma_first_nl(s);
}

/// Splits characters into lines as `str::lines` does.
pub fn split_lines_chars(s: &[char]) -> (out: Vec<Vec<char>>)
    ensures
        out@.len() == spec_lines(s@).len(),
        forall|i: int| 0 <= i < out@.len() ==> #[trigger] out@[i]@ == spec_lines(s@)[i],
{
    let mut out: Vec<Vec<char>> = Vec::new();
    let mut start: usize = 0;
    let mut cur: Vec<char> = Vec::new();
    let mut i: usize = 0;
    assert(s@.skip(0) =~= s@);
    while i < s.len()
        invariant
            start <= i <= s@.len(),
            cur@ == s@.subrange(start as int, i as int),
            forall|j: int| start <= j < i ==> s@[j] != '\n',
            spec_lines(s@).len() == out@.len() + spec_lines(s@.skip(start as int)).len(),
            forall|k: int| 0 <= k < out@.len() ==> #[trigger] out@[k]@ == spec_lines(s@)[k],
            forall|k: int|
                0 <= k < spec_lines(s@.skip(start as int)).len() ==> spec_lines(s@)[out@.len()
                    + k] == #[trigger] spec_lines(s@.skip(start as int))[k],
        decreases s@.len() - i,
    {
        if s[i] == '\n' {
            let ghost rest = s@.skip(start as int);
            proof {
                assert forall|j: int| 0 <= j < i - start implies rest[j] != '\n' by {
                    assert(rest[j] == s@[start + j]);
                }
                lemma_first_nl_is(rest, i - start);
                assert(rest.take(i - start) =~= cur@);
                assert(rest.skip(i - start + 1) =~= s@.skip(i + 1));
            }
            let mut line = cur;
            if line.len() > 0 && line[line.len() - 1] == '\r' {
                line.pop();
            }
            proof {
                assert(line@ == strip_cr(cur@)) by {
                    if cur@.len() > 0 && cur@.last() == '\r' {
                        assert(line@ =~= cur@.drop_last());
                    }
                }
                assert(spec_lines(rest) == seq![line@] + spec_lines(s@.skip(i + 1)));
                assert(spec_lines(rest)[0] == line@);
                assert forall|k: int| 0 <= k < spec_lines(s@.skip(i + 1)).len() implies spec_lines(
                    s@,
                )[out@.len() + 1 + k] == #[trigger] spec_lines(s@.skip(i + 1))[k] by {
                    assert(spec_lines(rest)[k + 1] == spec_lines(s@.skip(i + 1))[k]);
                }
            }
            out.push(line);
            cur = Vec::new();
            start = i + 1;
            assert(cur@ =~= s@.subrange(start as int, (i + 1) as int));
        } else {
            cur.push(s[i]);
            assert(cur@ =~= s@.subrange(start as int, (i + 1) as int));
        }
        i = i + 1;
    }
    let ghost rest = s@.skip(start as int);
    proof {
        assert(rest =~= cur@);
        if rest.len() > 0 {
            assert forall|j: int| 0 <= j < rest.len() implies rest[j] != '\n' by {
                assert(rest[j] == s@[start + j]);
            }
            lemma_first_nl_none(rest);
            assert(spec_lines(rest) == seq![rest]);
        }
    }
    if cur.len() > 0 {
        proof {
            assert(spec_lines(rest)[0] == cur@);
        }
        out.push(cur);
    }
    out
}

/// The lines of `s`, as `str::lines` yields them.
pub fn split_lines(s: &str) -> (out: Vec<Vec<char>>)
    ensures
        out@.len() == spec_lines(s@).len(),
        forall|i: int| 0 <= i < out@.len() ==> #[trigger] out@[i]@ == spec_lines(s@)[i],
{
    let cs = chars_of(s);
    split_lines_chars(cs.as_slice())
}

} // verus!
