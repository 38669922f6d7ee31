use vstd::prelude::*;

use crate::bytes::copy_range;

verus! {

/// Index of the first `\n` at or after `i`, or the length when there is none.
pub open spec fn next_newline(b: Seq<u8>, i: int) -> int
    decreases b.len() - i,
{
    if i >= b.len() {
        b.len() as int
    } else if b[i] == 10 {
        i
    } else {
        next_newline(b, i + 1)
    }
}

proof fn lemma_next_newline_bounds(b: Seq<u8>, i: int)
    requires
        0 <= i <= b.len(),
    ensures
        i <= next_newline(b, i) <= b.len(),
        next_newline(b, i) < b.len() ==> b[next_newline(b, i)] == 10,
        forall|j: int| i <= j < next_newline(b, i) ==> b[j] != 10,
    decreases b.len() - i,
{
    if i < b.len() && b[i] != 10 {
        lemma_next_newline_bounds(b, i + 1);
    }
}

/// A line without the `\r` of a `\r\n` ending.
pub open spec fn strip_cr(s: Seq<u8>) -> Seq<u8> {
    if s.len() > 0 && s.last() == 13 {
        s.drop_last()
    } else {
        s
    }
}

/// The lines of `b[i..]`: split at `\n`, a `\r` before the `\n` dropped, and
/// no empty line after a final `\n`.
pub open spec fn lines_from(b: Seq<u8>, i: int) -> Seq<Seq<u8>>
    decreases b.len() - i,
    via lines_from_decreases
{
    if i < 0 || i >= b.len() {
        seq![]
    } else {
        let e = next_newline(b, i);
        if e >= b.len() {
            seq![b.subrange(i, b.len() as int)]
        } else {
            seq![strip_cr(b.subrange(i, e))] + lines_from(b, e + 1)
        }
    }
}

#[via_fn]
proof fn lines_from_decreases(b: Seq<u8>, i: int) {
    if 0 <= i < b.len() {
        lemma_next_newline_bounds(b, i);
    }
}

pub open spec fn lines_of(b: Seq<u8>) -> Seq<Seq<u8>> {
    lines_from(b, 0)
}

pub open spec fn line_views(v: Seq<Vec<u8>>) -> Seq<Seq<u8>> {
    v.map_values(|l: Vec<u8>| l@)
}

/// Splits text bytes into lines, as `str::lines` does.
pub fn split_lines(b: &[u8]) -> (r: Vec<Vec<u8>>)
    ensures
        line_views(r@) == lines_of(b@),
{
    let n = b.len();
    let mut out: Vec<Vec<u8>> = Vec::new();
    let mut i: usize = 0;
    while i < n
        invariant
            i <= n,
            n == b@.len(),
            line_views(out@) + lines_from(b@, i as int) == lines_of(b@),
        decreases n - i,
    {
        let mut e: usize = i;
        while e < n && b[e] != 10
            invariant
                i <= e <= n,
                n == b@.len(),
                forall|j: int| i <= j < e ==> b@[j] != 10,
            decreases n - e,
        {
            e = e + 1;
        }
        proof {
            lemma_next_newline_bounds(b@, i as int);
            lemma_next_newline_is(b@, i as int, e as int);
        }
        let ghost before = line_views(out@);
        if e == n {
            let line = copy_range(b, i, n);
            out.push(line);
            assert(line_views(out@) =~= before.push(line@));
            assert(lines_from(b@, n as int) =~= seq![]);
            assert(before + lines_from(b@, i as int) =~= line_views(out@) + lines_from(
                b@,
                n as int,
            ));
            i = n;
        } else {
            let hi = if e > i && b[e - 1] == 13 {
                e - 1
            } else {
                e
            };
            let line = copy_range(b, i, hi);
            assert(line@ =~= strip_cr(b@.subrange(i as int, e as int)));
            out.push(line);
            assert(line_views(out@) =~= before.push(line@));
            assert(before + lines_from(b@, i as int) =~= line_views(out@) + lines_from(
                b@,
                e + 1,
            ));
            i = e + 1;
        }
    }
    assert(lines_from(b@, i as int) =~= seq![]);
    assert(line_views(out@) + seq![] =~= line_views(out@));
    out
}

proof fn lemma_next_newline_is(b: Seq<u8>, i: int, e: int)
    requires
        0 <= i <= e <= b.len(),
        forall|j: int| i <= j < e ==> b[j] != 10,
        e < b.len() ==> b[e] == 10,
    ensures
        next_newline(b, i) == e,
    decreases e - i,
{
    if i < e {
        lemma_next_newline_is(b, i + 1, e);
    }
}

} // verus!
