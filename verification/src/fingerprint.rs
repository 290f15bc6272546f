//! Content hashes and context fingerprints: std's `DefaultHasher` fed a stream
//! of strings, rendered as 16 lowercase hex digits.
use std::collections::hash_map::DefaultHasher;
use std::hash::Hasher;
use vstd::prelude::*;
use vstd::std_specs::hash::DefaultHasherAdditionalSpecFns;
use vstd::utf8::encode_utf8;
use crate::text::push_char;

verus! {

/// The writes `str::hash` makes for each string: its UTF-8 bytes, then a
/// single `0xff` byte.
pub open spec fn str_writes(parts: Seq<Seq<char>>) -> Seq<Seq<u8>>
    decreases parts.len(),
{
    if parts.len() == 0 {
        Seq::empty()
    } else {
        str_writes(parts.drop_last()) + seq![encode_utf8(parts.last()), seq![0xffu8]]
    }
}

/// The hash `DefaultHasher` gives for a fresh hasher fed these strings in
/// order, one `str::hash` each.
pub open spec fn stream_hash(parts: Seq<Seq<char>>) -> u64 {
    DefaultHasher::spec_finish(str_writes(parts))
}

/// Feeds one string to the hasher as `<str as Hash>::hash` does.
pub(crate) fn feed(h: &mut DefaultHasher, s: &str, Ghost(parts): Ghost<Seq<Seq<char>>>)
    requires
        old(h)@ == str_writes(parts),
    ensures
        final(h)@ == str_writes(parts.push(s@)),
{
    h.write(s.as_bytes());
    let tail: [u8; 1] = [0xffu8];
    h.write(&tail);
    proof {
        assert(parts.push(s@).drop_last() =~= parts);
        assert(tail@ =~= seq![0xffu8]);
    }
    assert(h@ =~= str_writes(parts.push(s@)));
}

/// The `i`-th hex digit (most significant first) of a 64-bit value.
pub open spec fn nibble(h: u64, i: int) -> u64 {
    (h >> ((60 - 4 * i) as u64)) & 15u64
}

/// A lowercase hex digit.
pub open spec fn hex_char(d: u64) -> char {
    if d < 10 {
        ((48 + d) as u32) as char
    } else {
        ((87 + d) as u32) as char
    }
}

/// A 64-bit value as 16 lowercase hex digits, zero-padded (`{:016x}`).
pub open spec fn hex16(h: u64) -> Seq<char> {
    Seq::new(16, |i: int| hex_char(nibble(h, i)))
}

/// The hex digits of a fingerprint: `0`-`9` then `a`-`f`; so every character
/// of a fingerprint is one of these sixteen.
pub proof fn lemma_hex_char_table(h: u64)
    ensures
        hex_char(0) == '0',
        hex_char(1) == '1',
        hex_char(2) == '2',
        hex_char(3) == '3',
        hex_char(4) == '4',
        hex_char(5) == '5',
        hex_char(6) == '6',
        hex_char(7) == '7',
        hex_char(8) == '8',
        hex_char(9) == '9',
        hex_char(10) == 'a',
        hex_char(11) == 'b',
        hex_char(12) == 'c',
        hex_char(13) == 'd',
        hex_char(14) == 'e',
        hex_char(15) == 'f',
        hex16(h).len() == 16,
        forall|i: int|
            0 <= i < 16 ==> ('0' <= #[trigger] hex16(h)[i] && hex16(h)[i] <= '9') || ('a'
                <= hex16(h)[i] && hex16(h)[i] <= 'f'),
{
    assert forall|i: int| 0 <= i < 16 implies ('0' <= #[trigger] hex16(h)[i] && hex16(h)[i] <= '9')
        || ('a' <= hex16(h)[i] && hex16(h)[i] <= 'f') by {
        let sh: u64 = (60 - 4 * i) as u64;
        assert((h >> sh) & 15u64 <= 15u64) by (bit_vector);
        assert(nibble(h, i) <= 15);
    }
}

fn hex_digit(d: u64) -> (c: char)
    requires
        d < 16,
    ensures
        c == hex_char(d),
{
    if d < 10 {
        ((48 + d) as u8) as char
    } else {
        ((87 + d) as u8) as char
    }
}

/// Formats `h` as 16 lowercase hex digits (`format!("{:016x}", h)`).
pub fn hex16_string(h: u64) -> (s: String)
    ensures
        s@ == hex16(h),
{
    let mut s = String::new();
    let mut i: u64 = 0;
    while i < 16
        invariant
            i <= 16,
            s@ == hex16(h).take(i as int),
        decreases 16 - i,
    {
        let shift: u64 = 60 - 4 * i;
        let d: u64 = (h >> shift) & 15u64;
        assert(d < 16) by (bit_vector)
            requires
                d == (h >> shift) & 15u64,
        ;
        push_char(&mut s, hex_digit(d));
        assert(hex16(h).take(i + 1) =~= hex16(h).take(i as int).push(hex_char(d)));
        i = i + 1;
    }
    assert(hex16(h).take(16) =~= hex16(h));
    s
}

/// Deterministic hash of a file's content, as 16 lowercase hex digits.
pub fn content_hash(content: &str) -> (r: String)
    ensures
        r@ == hex16(stream_hash(seq![content@])),
{
    let mut h = DefaultHasher::new();
    let ghost none: Seq<Seq<char>> = Seq::empty();
    assert(h@ =~= str_writes(none));
    feed(&mut h, content, Ghost(none));
    assert(Seq::<Seq<char>>::empty().push(content@) =~= seq![content@]);
    hex16_string(h.finish())
}

/// The strings a context fingerprint hashes: the workflow, plan and task ids,
/// then each memory id present, then each task's id and status when present.
pub open spec fn fingerprint_input(
    workflow_id: Seq<char>,
    plan_id: Seq<char>,
    task_id: Seq<char>,
    memory_ids: Seq<Option<Seq<char>>>,
    tasks: Seq<(Option<Seq<char>>, Option<Seq<char>>)>,
) -> Seq<Seq<char>> {
    seq![workflow_id, plan_id, task_id] + present(memory_ids) + task_parts(tasks)
}

/// The present values of a list of optional strings, in order.
pub open spec fn present(xs: Seq<Option<Seq<char>>>) -> Seq<Seq<char>>
    decreases xs.len(),
{
    if xs.len() == 0 {
        Seq::empty()
    } else {
        present(xs.drop_last()) + match xs.last() {
            Some(x) => seq![x],
            None => Seq::empty(),
        }
    }
}

/// The present id and status of each task, in order.
pub open spec fn task_parts(ts: Seq<(Option<Seq<char>>, Option<Seq<char>>)>) -> Seq<Seq<char>>
    decreases ts.len(),
{
    if ts.len() == 0 {
        Seq::empty()
    } else {
        task_parts(ts.drop_last()) + present(seq![ts.last().0, ts.last().1])
    }
}

pub open spec fn opt_str_view(o: Option<&str>) -> Option<Seq<char>> {
    match o {
        Some(s) => Some(s@),
        None => None,
    }
}

/// The deterministic fingerprint of a context: the hash of
/// [`fingerprint_input`], as 16 lowercase hex digits.
pub fn compute_fingerprint(
    workflow_id: &str,
    plan_id: &str,
    task_id: &str,
    memory_ids: &[Option<&str>],
    tasks: &[(Option<&str>, Option<&str>)],
) -> (r: String)
    ensures
        r@ == hex16(
            stream_hash(
                fingerprint_input(
                    workflow_id@,
                    plan_id@,
                    task_id@,
                    memory_ids@.map_values(|o: Option<&str>| opt_str_view(o)),
                    tasks@.map_values(
                        |t: (Option<&str>, Option<&str>)| (opt_str_view(t.0), opt_str_view(t.1)),
                    ),
                ),
            ),
        ),
{
    let ghost ms = memory_ids@.map_values(|o: Option<&str>| opt_str_view(o));
    let ghost ts = tasks@.map_values(
        |t: (Option<&str>, Option<&str>)| (opt_str_view(t.0), opt_str_view(t.1)),
    );
    let mut h = DefaultHasher::new();
    let ghost p0: Seq<Seq<char>> = Seq::empty();
    let ghost p1: Seq<Seq<char>> = seq![workflow_id@];
    let ghost p2: Seq<Seq<char>> = seq![workflow_id@, plan_id@];
    assert(h@ =~= str_writes(p0));
    feed(&mut h, workflow_id, Ghost(p0));
    assert(p0.push(workflow_id@) =~= p1);
    feed(&mut h, plan_id, Ghost(p1));
    assert(p1.push(plan_id@) =~= p2);
    feed(&mut h, task_id, Ghost(p2));
    let ghost mut parts: Seq<Seq<char>> = seq![workflow_id@, plan_id@, task_id@];
    assert(Seq::<Seq<char>>::empty().push(workflow_id@) =~= seq![workflow_id@]);
    assert(seq![workflow_id@].push(plan_id@) =~= seq![workflow_id@, plan_id@]);
    assert(seq![workflow_id@, plan_id@].push(task_id@) =~= parts);
    assert(present(ms.take(0)) =~= Seq::<Seq<char>>::empty());
    assert(parts =~= seq![workflow_id@, plan_id@, task_id@] + present(ms.take(0)));
    let mut i: usize = 0;
    while i < memory_ids.len()
        invariant
            i <= memory_ids@.len(),
            ms == memory_ids@.map_values(|o: Option<&str>| opt_str_view(o)),
            h@ == str_writes(parts),
            parts == seq![workflow_id@, plan_id@, task_id@] + present(ms.take(i as int)),
        decreases memory_ids@.len() - i,
    {
        assert(ms.take(i + 1).drop_last() =~= ms.take(i as int));
        if let Some(id) = memory_ids[i] {
            feed(&mut h, id, Ghost(parts));
            proof {
                parts = parts.push(id@);
            }
        }
        proof {
            assert(parts =~= seq![workflow_id@, plan_id@, task_id@] + present(ms.take(i + 1)));
        }
        i = i + 1;
    }
    assert(ms.take(memory_ids@.len() as int) =~= ms);
    let ghost base = parts;
    assert(task_parts(ts.take(0)) =~= Seq::<Seq<char>>::empty());
    assert(parts =~= base + task_parts(ts.take(0)));
    let mut k: usize = 0;
    while k < tasks.len()
        invariant
            k <= tasks@.len(),
            ts == tasks@.map_values(
                |t: (Option<&str>, Option<&str>)| (opt_str_view(t.0), opt_str_view(t.1)),
            ),
            h@ == str_writes(parts),
            parts == base + task_parts(ts.take(k as int)),
        decreases tasks@.len() - k,
    {
        assert(ts.take(k + 1).drop_last() =~= ts.take(k as int));
        let (tid, tstatus) = tasks[k];
        let ghost before = parts;
        if let Some(x) = tid {
            feed(&mut h, x, Ghost(parts));
            proof {
                parts = parts.push(x@);
            }
        }
        if let Some(x) = tstatus {
            feed(&mut h, x, Ghost(parts));
            proof {
                parts = parts.push(x@);
            }
        }
        proof {
            let pair = seq![ts[k as int].0, ts[k as int].1];
            assert(pair.drop_last() =~= seq![ts[k as int].0]);
            assert(seq![ts[k as int].0].drop_last() =~= Seq::<Option<Seq<char>>>::empty());
            reveal_with_fuel(present, 3);
            assert(parts =~= before + present(pair));
            assert(parts =~= base + task_parts(ts.take(k + 1)));
        }
        k = k + 1;
    }
    assert(ts.take(tasks@.len() as int) =~= ts);
    assert(parts =~= fingerprint_input(workflow_id@, plan_id@, task_id@, ms, ts));
    hex16_string(h.finish())
}

} // verus!
